use slideglance::font_fetcher::FontFetcher;
use slideglance::text_style::{render_mode_for, FontStyle, HeuristicTextMeasurer, RenderMode};

#[test]
fn font_style_default_is_neither_bold_nor_italic() {
    let s = FontStyle::default();
    assert!(!s.bold);
    assert!(!s.italic);
}

#[test]
fn font_style_struct_carries_bold_and_italic() {
    let bold_only = FontStyle {
        bold: true,
        italic: false,
    };
    assert!(bold_only.bold);
    assert!(!bold_only.italic);
    let italic_only = FontStyle {
        bold: false,
        italic: true,
    };
    assert!(!italic_only.bold);
    assert!(italic_only.italic);
}

#[test]
fn render_mode_default_is_text_mode() {
    assert_eq!(RenderMode::default(), RenderMode::TextMode);
}

#[test]
fn closure_satisfies_fetcher_trait() {
    let fetcher = |family: &str| {
        if family == "Test" {
            Some(b"fake".to_vec())
        } else {
            None
        }
    };
    // Make sure the closure's return type matches via the trait.
    let bytes: Option<Vec<u8>> = fetcher.fetch("Test");
    assert_eq!(bytes.as_deref(), Some(&b"fake"[..]));
}

// -- own tests --------------------------------------------------------------

#[test]
fn any_resolver_selects_path_mode() {
    assert_eq!(render_mode_for(false, false), RenderMode::TextMode);
    assert_eq!(render_mode_for(true, false), RenderMode::PathMode);
    assert_eq!(render_mode_for(false, true), RenderMode::PathMode);
    assert_eq!(render_mode_for(true, true), RenderMode::PathMode);
}

#[test]
fn closure_fetcher_misses_unknown_family() {
    let fetcher = |family: &str| if family.is_empty() { None } else { Some(vec![1u8]) };
    assert_eq!(fetcher.fetch(""), None);
    assert_eq!(fetcher.fetch("x"), Some(vec![1u8]));
    let _measurer = HeuristicTextMeasurer;
}
