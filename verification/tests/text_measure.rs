use slideglance::script::{
    classify_script, is_cjk_codepoint, is_complex_script_codepoint, is_halfwidth_cjk_codepoint,
    is_narrow_latin, is_pua_codepoint, is_sym_pua_codepoint, split_by_script, Script,
};
use slideglance::fragments::{is_space_only, is_whitespace, split_text_into_fragments};

#[test]
fn script_enum_has_six_variants() {
    // Compile-time proof that all six variants exist.
    let variants = [
        Script::Latin,
        Script::Korean,
        Script::Japanese,
        Script::SimplifiedChinese,
        Script::TraditionalChinese,
        Script::Pua,
    ];
    assert_eq!(variants.len(), 6);
}

#[test]
fn classify_latin_ascii() {
    assert_eq!(classify_script('A' as u32), Script::Latin);
    assert_eq!(classify_script('z' as u32), Script::Latin);
    assert_eq!(classify_script(' ' as u32), Script::Latin);
}

#[test]
fn classify_hangul_syllables_as_korean() {
    assert_eq!(classify_script('한' as u32), Script::Korean);
    assert_eq!(classify_script('글' as u32), Script::Korean);
    assert_eq!(classify_script(0xAC00), Script::Korean);
    assert_eq!(classify_script(0xD7A3), Script::Korean);
}

#[test]
fn classify_hangul_jamo_as_korean() {
    assert_eq!(classify_script(0x1100), Script::Korean);
    assert_eq!(classify_script(0x11FF), Script::Korean);
}

#[test]
fn classify_hiragana_as_japanese() {
    assert_eq!(classify_script('あ' as u32), Script::Japanese);
    assert_eq!(classify_script(0x3040), Script::Japanese);
    assert_eq!(classify_script(0x309F), Script::Japanese);
}

#[test]
fn classify_katakana_as_japanese() {
    assert_eq!(classify_script('ア' as u32), Script::Japanese);
    assert_eq!(classify_script(0x30A0), Script::Japanese);
    assert_eq!(classify_script(0x30FF), Script::Japanese);
}

#[test]
fn classify_cjk_unified_as_simplified_chinese() {
    // CJK ideographs outside Hiragana/Katakana/Hangul default to Hans.
    assert_eq!(classify_script('日' as u32), Script::SimplifiedChinese);
    assert_eq!(classify_script('中' as u32), Script::SimplifiedChinese);
}

#[test]
fn classify_pua_general() {
    assert_eq!(classify_script(0xE000), Script::Pua);
    assert_eq!(classify_script(0xEFFF), Script::Pua);
    assert_eq!(classify_script(0xF100), Script::Pua);
    assert_eq!(classify_script(0xF8FF), Script::Pua);
}

#[test]
fn classify_sym_pua_as_latin() {
    // U+F000–F0FF is the sym-PUA range; left to Script::Latin so the
    // renderer can route to the sym font stack separately.
    assert_eq!(classify_script(0xF000), Script::Latin);
    assert_eq!(classify_script(0xF0FF), Script::Latin);
}

#[test]
fn script_is_ea() {
    assert!(!Script::Latin.is_ea());
    assert!(Script::Korean.is_ea());
    assert!(Script::Japanese.is_ea());
    assert!(Script::SimplifiedChinese.is_ea());
    assert!(Script::TraditionalChinese.is_ea());
    assert!(Script::Pua.is_ea());
}

// -- split_by_script -------------------------------------------------------

#[test]
fn split_empty_returns_empty() {
    assert!(split_by_script("").is_empty());
}

#[test]
fn split_pure_latin() {
    let parts = split_by_script("hello");
    assert_eq!(parts.len(), 1);
    assert_eq!(parts[0].script, Script::Latin);
    assert_eq!(parts[0].text, "hello");
}

#[test]
fn split_pure_korean() {
    let parts = split_by_script("한국어");
    assert_eq!(parts.len(), 1);
    assert_eq!(parts[0].script, Script::Korean);
}

#[test]
fn split_pure_japanese() {
    let parts = split_by_script("あいう");
    assert_eq!(parts.len(), 1);
    assert_eq!(parts[0].script, Script::Japanese);
}

#[test]
fn split_mixed_latin_korean() {
    let parts = split_by_script("Hello 한국");
    assert_eq!(parts.len(), 2);
    assert_eq!(parts[0].script, Script::Latin);
    assert_eq!(parts[0].text, "Hello ");
    assert_eq!(parts[1].script, Script::Korean);
    assert_eq!(parts[1].text, "한국");
}

#[test]
fn split_mixed_three_scripts() {
    let parts = split_by_script("Hi 한 あ");
    // "Hi " Latin, "한" Korean, " " Latin, "あ" Japanese
    assert!(parts.len() >= 3);
    assert_eq!(parts[0].script, Script::Latin);
    assert_eq!(parts[0].text, "Hi ");
    assert_eq!(parts[1].script, Script::Korean);
}

// -- T5: is_halfwidth_cjk_codepoint / is_pua / is_complex ------------------

#[test]
fn halfwidth_katakana_is_halfwidth() {
    assert!(is_halfwidth_cjk_codepoint(0xFF61));
    assert!(is_halfwidth_cjk_codepoint(0xFF9F));
    assert!(is_halfwidth_cjk_codepoint(0xFF70)); // ｰ mid range
}

#[test]
fn halfwidth_hangul_is_halfwidth() {
    assert!(is_halfwidth_cjk_codepoint(0xFFA0));
    assert!(is_halfwidth_cjk_codepoint(0xFFDC));
}

#[test]
fn full_width_katakana_is_not_halfwidth() {
    assert!(!is_halfwidth_cjk_codepoint('ア' as u32)); // U+30A2
}

#[test]
fn latin_is_not_halfwidth() {
    assert!(!is_halfwidth_cjk_codepoint('A' as u32));
}

#[test]
fn pua_e000_is_pua() {
    assert!(is_pua_codepoint(0xE000));
    assert!(is_pua_codepoint(0xEFFF));
    assert!(is_pua_codepoint(0xF000));
    assert!(is_pua_codepoint(0xF8FF));
}

#[test]
fn latin_is_not_pua() {
    assert!(!is_pua_codepoint('A' as u32));
    assert!(!is_pua_codepoint(0x3000));
}

#[test]
fn arabic_is_complex_script() {
    assert!(is_complex_script_codepoint(0x0600));
    assert!(is_complex_script_codepoint(0x06FF));
}

#[test]
fn hebrew_is_complex_script() {
    assert!(is_complex_script_codepoint(0x0590));
    assert!(is_complex_script_codepoint(0x05FF));
}

#[test]
fn thai_is_complex_script() {
    assert!(is_complex_script_codepoint(0x0E00));
    assert!(is_complex_script_codepoint(0x0E7F));
}

#[test]
fn latin_is_not_complex_script() {
    assert!(!is_complex_script_codepoint('A' as u32));
    assert!(!is_complex_script_codepoint('z' as u32));
}

#[test]
fn is_cjk_for_unified_ideographs() {
    // 漢 = U+6F22
    assert!(is_cjk_codepoint(0x6F22));
    // 字 = U+5B57
    assert!(is_cjk_codepoint(0x5B57));
}

#[test]
fn is_cjk_for_hiragana() {
    // あ = U+3042
    assert!(is_cjk_codepoint(0x3042));
}

#[test]
fn is_cjk_for_katakana() {
    // ア = U+30A2
    assert!(is_cjk_codepoint(0x30A2));
}

#[test]
fn is_cjk_for_hangul_syllables() {
    // 한 = U+D55C
    assert!(is_cjk_codepoint(0xD55C));
    // 글 = U+AE00
    assert!(is_cjk_codepoint(0xAE00));
}

#[test]
fn is_cjk_for_full_width_latin() {
    // Ｐ = U+FF30
    assert!(is_cjk_codepoint(0xFF30));
}

#[test]
fn is_cjk_false_for_latin() {
    assert!(!is_cjk_codepoint('A' as u32));
    assert!(!is_cjk_codepoint(' ' as u32));
    assert!(!is_cjk_codepoint('!' as u32));
}

// -- own tests --------------------------------------------------------------

#[test]
fn split_parts_concatenate_to_input() {
    let text = "Hi 한 あ 中文 x";
    let parts = split_by_script(text);
    let joined: String = parts.iter().map(|p| p.text.as_str()).collect();
    assert_eq!(joined, text);
    for w in parts.windows(2) {
        assert_ne!(w[0].script, w[1].script);
    }
    assert_eq!(parts.len(), 7);
}

#[test]
fn sym_pua_range() {
    assert!(is_sym_pua_codepoint(0xF000));
    assert!(is_sym_pua_codepoint(0xF0FF));
    assert!(!is_sym_pua_codepoint(0xF100));
}

#[test]
fn narrow_latin_set() {
    for c in [' ', '!', ',', '-', '.', ':', ';', 'i', 'j', 'l', '1', '|', '\'', '(', ')', '[', ']', '{', '}'] {
        assert!(is_narrow_latin(c as u32), "{c}");
    }
    assert!(!is_narrow_latin('m' as u32));
}

#[test]
fn fragments_alternate_words_and_spaces() {
    let frags = split_text_into_fragments("ab  cd\te");
    let texts: Vec<(&str, bool)> = frags.iter().map(|(t, w)| (t.as_str(), *w)).collect();
    assert_eq!(
        texts,
        vec![("ab", false), ("  ", true), ("cd", false), ("\t", true), ("e", false)]
    );
    assert!(split_text_into_fragments("").is_empty());
}

#[test]
fn whitespace_predicates() {
    assert!(is_whitespace(' ' as u32));
    assert!(is_whitespace('\t' as u32));
    assert!(!is_whitespace('a' as u32));
    assert!(is_space_only("  \t"));
    assert!(!is_space_only(" a "));
}

#[test]
fn split_text_into_fragments_basic_latin() {
    let frags = split_text_into_fragments("Hello world");
    let texts: Vec<&str> = frags.iter().map(|(t, _)| t.as_str()).collect();
    assert_eq!(texts, vec!["Hello", " ", "world"]);
    // Per TS: pushed-on-transition fragment carries `breakable =
    // current-kind matches`. Latin → Space pushes Latin with
    // breakable=(was-cjk)=false. Space → Latin pushes Space with
    // breakable=(was-space)=true. End-of-input pushes the Latin
    // tail with breakable=(latin → false).
    assert!(!frags[0].1, "Latin head non-breakable, got {}", frags[0].1);
    assert!(frags[1].1, "Space middle breakable, got {}", frags[1].1);
    assert!(!frags[2].1, "Latin tail non-breakable, got {}", frags[2].1);
}

#[test]
fn split_text_into_fragments_cjk_per_char() {
    let frags = split_text_into_fragments("漢字");
    assert_eq!(frags.len(), 2);
    assert_eq!(frags[0].0, "漢");
    assert_eq!(frags[1].0, "字");
    assert!(frags[0].1);
    assert!(frags[1].1);
}

#[test]
fn split_text_into_fragments_mixed() {
    let frags = split_text_into_fragments("ABシ");
    let texts: Vec<&str> = frags.iter().map(|(t, _)| t.as_str()).collect();
    assert_eq!(texts, vec!["AB", "シ"]);
}
