use slideglance::wrap::{merge_segments, tokenize_run_texts, trim_trailing_spaces, TokenShape};

fn tok(text: &str, run_index: usize, breakable: bool, force_break: bool) -> TokenShape {
    TokenShape { text: text.to_string(), run_index, breakable, force_break }
}

#[test]
fn tokenize_single_run() {
    let tokens = tokenize_run_texts(&vec!["Hello world".to_string()]);
    assert_eq!(
        tokens,
        vec![
            tok("Hello", 0, false, false),
            tok(" ", 0, true, false),
            tok("world", 0, false, false),
        ]
    );
}

#[test]
fn first_token_is_never_a_break_opportunity() {
    let tokens = tokenize_run_texts(&vec!["  x".to_string()]);
    assert_eq!(tokens[0], tok("  ", 0, false, false));
    let tokens = tokenize_run_texts(&vec!["漢字".to_string()]);
    assert_eq!(tokens, vec![tok("漢", 0, false, false), tok("字", 0, true, false)]);
}

#[test]
fn newlines_become_forced_breaks() {
    let tokens = tokenize_run_texts(&vec!["a\nb".to_string(), "".to_string(), "\nc".to_string()]);
    assert_eq!(
        tokens,
        vec![
            tok("a", 0, false, false),
            tok("", 0, true, true),
            tok("b", 0, false, false),
            tok("", 2, true, true),
            tok("c", 2, false, false),
        ]
    );
    // a leading break keeps its break flag
    let tokens = tokenize_run_texts(&vec!["\nx".to_string()]);
    assert_eq!(tokens, vec![tok("", 0, true, true), tok("x", 0, false, false)]);
}

#[test]
fn empty_runs_give_no_tokens() {
    assert!(tokenize_run_texts(&vec![]).is_empty());
    assert!(tokenize_run_texts(&vec!["".to_string(), "".to_string()]).is_empty());
}

#[test]
fn merge_joins_same_run_neighbours() {
    let tokens = vec![
        ("Hello".to_string(), 0),
        (" ".to_string(), 0),
        ("".to_string(), 1),
        ("big".to_string(), 1),
        (" ".to_string(), 0),
        ("world".to_string(), 0),
    ];
    assert_eq!(
        merge_segments(&tokens),
        vec![
            ("Hello ".to_string(), 0),
            ("big".to_string(), 1),
            (" world".to_string(), 0),
        ]
    );
}

#[test]
fn trim_removes_trailing_white_space_segments() {
    let segs = vec![
        ("ab ".to_string(), 0),
        ("  ".to_string(), 1),
        ("\u{3000}".to_string(), 2),
    ];
    assert_eq!(trim_trailing_spaces(segs), vec![("ab".to_string(), 0)]);
    let segs = vec![(" \t".to_string(), 0)];
    assert!(trim_trailing_spaces(segs).is_empty());
    let segs = vec![("x\u{00A0}".to_string(), 3)];
    assert_eq!(trim_trailing_spaces(segs), vec![("x".to_string(), 3)]);
}

#[test]
fn tokens_keep_text() {
    let texts = vec!["Hi 한\nあ".to_string(), "x y".to_string()];
    let tokens = tokenize_run_texts(&texts);
    let joined: String = tokens.iter().map(|t| t.text.as_str()).collect();
    assert_eq!(joined, "Hi 한あx y");
}
