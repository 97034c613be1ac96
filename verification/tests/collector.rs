use slideglance::collector::{
    collect_fonts_from_elements, collect_fonts_from_table, collect_fonts_from_text_body,
    collect_theme_fonts, collect_used_fonts, ElementFonts, FontSet, ParagraphFonts,
    PresentationFonts, RunFonts, SlideFonts, TextBodyFonts,
};
use slideglance::strmap::StrMap;
use slideglance::theme::FontScheme;

#[test]
fn theme_fonts_collected() {
    let scheme = FontScheme {
        major_font: "Calibri Light".to_string(),
        minor_font: "Calibri".to_string(),
        major_font_ea: Some("Yu Gothic".to_string()),
        minor_font_ea: Some("Yu Mincho".to_string()),
        major_font_cs: Some("Arial".to_string()),
        minor_font_cs: Some("Arial".to_string()),
        major_script_fonts: StrMap::from_pairs(vec![
            ("Jpan".to_string(), "Yu Gothic".to_string()),
            ("Hang".to_string(), "맑은 고딕".to_string()),
        ]),
        minor_script_fonts: StrMap::from_pairs(vec![(
            "Hans".to_string(),
            "Microsoft YaHei".to_string(),
        )]),
    };
    let mut fonts = FontSet::new();
    collect_theme_fonts(&scheme, &mut fonts);
    assert!(fonts.contains_key("Calibri"));
    assert!(fonts.contains_key("Calibri Light"));
    assert!(fonts.contains_key("Yu Gothic"));
    assert!(fonts.contains_key("Yu Mincho"));
    assert!(fonts.contains_key("Arial"));
    assert!(fonts.contains_key("맑은 고딕"));
    assert!(fonts.contains_key("Microsoft YaHei"));
}

#[test]
fn cjk_script_equality_includes_all_scripts() {
    // Project rule verification: Hang / Hans / Hant entries in the
    // script-fonts map are collected just like Jpan.
    let scheme = FontScheme {
        major_font: "Roboto".to_string(),
        minor_font: "Roboto".to_string(),
        major_font_ea: None,
        minor_font_ea: None,
        major_font_cs: None,
        minor_font_cs: None,
        major_script_fonts: StrMap::from_pairs(vec![
            ("Jpan".to_string(), "JPFont".to_string()),
            ("Hang".to_string(), "KRFont".to_string()),
            ("Hans".to_string(), "SCFont".to_string()),
            ("Hant".to_string(), "TCFont".to_string()),
        ]),
        minor_script_fonts: StrMap::new(),
    };
    let mut fonts = FontSet::new();
    collect_theme_fonts(&scheme, &mut fonts);
    for cjk_font in ["JPFont", "KRFont", "SCFont", "TCFont"] {
        assert!(fonts.contains_key(cjk_font), "missing {cjk_font}");
    }
}

#[test]
fn theme_fonts_are_added_to_existing_set() {
    let mut fonts = FontSet::new();
    fonts.insert("Wingdings".to_string(), ());
    let scheme = FontScheme::new();
    collect_theme_fonts(&scheme, &mut fonts);
    // the empty scheme contributes its two empty Latin names
    assert!(fonts.contains_key("Wingdings"));
    assert!(fonts.contains_key(""));
    assert_eq!(fonts.len(), 2);
}

#[test]
fn shared_names_are_collected_once() {
    let mut scheme = FontScheme::new();
    scheme.major_font = "Arial".to_string();
    scheme.minor_font = "Arial".to_string();
    scheme.major_font_cs = Some("Arial".to_string());
    let mut fonts = FontSet::new();
    collect_theme_fonts(&scheme, &mut fonts);
    assert_eq!(fonts.len(), 1);
}

#[test]
fn font_scheme_script_lookup() {
    let mut scheme = FontScheme::new();
    scheme.major_script_fonts.insert("Jpan".to_string(), "Yu Gothic".to_string());
    assert_eq!(scheme.major_script_font("Jpan"), Some("Yu Gothic"));
    assert_eq!(scheme.minor_script_font("Jpan"), None);
}

fn paragraph_with_runs(runs: Vec<RunFonts>) -> ParagraphFonts {
    ParagraphFonts { bullet_font: None, runs }
}

fn run_with_font(font_family: &str) -> RunFonts {
    RunFonts {
        font_family: Some(font_family.to_string()),
        font_family_ea: None,
        font_family_cs: None,
    }
}

fn text_body_with(paragraphs: Vec<ParagraphFonts>) -> TextBodyFonts {
    TextBodyFonts { paragraphs }
}

#[test]
fn run_font_family_collected() {
    let body = text_body_with(vec![paragraph_with_runs(vec![run_with_font("Comic Sans MS")])]);
    let mut fonts = FontSet::new();
    collect_fonts_from_text_body(&body, &mut fonts);
    assert!(fonts.contains_key("Comic Sans MS"));
}

#[test]
fn run_ea_and_cs_fonts_collected() {
    let mut run = run_with_font("Calibri");
    run.font_family_ea = Some("メイリオ".to_string());
    run.font_family_cs = Some("Arial".to_string());
    let body = text_body_with(vec![paragraph_with_runs(vec![run])]);
    let mut fonts = FontSet::new();
    collect_fonts_from_text_body(&body, &mut fonts);
    assert!(fonts.contains_key("Calibri"));
    assert!(fonts.contains_key("メイリオ"));
    assert!(fonts.contains_key("Arial"));
}

#[test]
fn bullet_font_collected() {
    let mut paragraph = paragraph_with_runs(vec![run_with_font("Calibri")]);
    paragraph.bullet_font = Some("Wingdings".to_string());
    let body = text_body_with(vec![paragraph]);
    let mut fonts = FontSet::new();
    collect_fonts_from_text_body(&body, &mut fonts);
    assert!(fonts.contains_key("Wingdings"));
    assert!(fonts.contains_key("Calibri"));
}

#[test]
fn empty_text_body_collects_nothing() {
    let body = text_body_with(Vec::new());
    let mut fonts = FontSet::new();
    collect_fonts_from_text_body(&body, &mut fonts);
    assert!(fonts.is_empty());
}

#[test]
fn run_with_no_font_family_collects_nothing() {
    let run = RunFonts { font_family: None, font_family_ea: None, font_family_cs: None };
    let body = text_body_with(vec![paragraph_with_runs(vec![run])]);
    let mut fonts = FontSet::new();
    collect_fonts_from_text_body(&body, &mut fonts);
    assert!(fonts.is_empty());
}

#[test]
fn empty_elements_slice_collects_nothing() {
    let mut fonts = FontSet::new();
    collect_fonts_from_elements(&[], &mut fonts);
    assert!(fonts.is_empty());
}

fn shape_with_font(name: &str) -> ElementFonts {
    ElementFonts::Shape(Some(text_body_with(vec![paragraph_with_runs(vec![run_with_font(name)])])))
}

#[test]
fn group_children_and_table_cells_are_walked() {
    let table = ElementFonts::Table(vec![
        vec![None, Some(text_body_with(vec![paragraph_with_runs(vec![run_with_font("Cell Font")])]))],
        vec![],
    ]);
    let nested = ElementFonts::Group(vec![ElementFonts::Group(vec![shape_with_font("Deep Font")])]);
    let elements = vec![ElementFonts::NoText, ElementFonts::Shape(None), table, nested];
    let mut fonts = FontSet::new();
    collect_fonts_from_elements(&elements, &mut fonts);
    assert_eq!(fonts.len(), 2);
    assert!(fonts.contains_key("Cell Font"));
    assert!(fonts.contains_key("Deep Font"));
}

#[test]
fn table_cells_without_text_collect_nothing() {
    let mut fonts = FontSet::new();
    collect_fonts_from_table(&vec![vec![None, None], vec![None]], &mut fonts);
    assert!(fonts.is_empty());
}

#[test]
fn used_fonts_are_sorted_and_distinct() {
    let mut scheme = FontScheme::new();
    scheme.major_font = "Calibri Light".to_string();
    scheme.minor_font = "Calibri".to_string();
    scheme.minor_script_fonts.insert("Jpan".to_string(), "Yu Gothic".to_string());
    let master = vec![shape_with_font("Arial")];
    let slides = vec![
        SlideFonts {
            slide: vec![shape_with_font("Zapfino"), shape_with_font("Calibri")],
            layout: vec![],
            master: vec![shape_with_font("Arial")],
        },
        SlideFonts { slide: vec![shape_with_font("Arial")], layout: vec![], master },
    ];
    let presentation = PresentationFonts { font_scheme: scheme, slides };
    let used = collect_used_fonts(&presentation);
    assert_eq!(used.fonts, vec!["Arial", "Calibri", "Calibri Light", "Yu Gothic", "Zapfino"]);
    assert_eq!(used.theme.major_font, "Calibri Light");
    assert_eq!(used.theme.minor_font, "Calibri");
    assert_eq!(used.theme.major_font_ea, None);
    assert_eq!(used.theme.minor_script_fonts.get("Jpan").map(|s| s.as_str()), Some("Yu Gothic"));
    assert!(used.theme.major_script_fonts.is_empty());
}

#[test]
fn used_fonts_of_an_empty_scheme_hold_its_empty_name() {
    let presentation = PresentationFonts { font_scheme: FontScheme::new(), slides: vec![] };
    let used = collect_used_fonts(&presentation);
    assert_eq!(used.fonts, vec![String::new()]);
}
