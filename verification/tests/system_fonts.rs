use slideglance::system_fonts::{face_matches, family_needles};

fn strings(v: &[&str]) -> Vec<String> {
    v.iter().map(|s| s.to_string()).collect()
}

#[test]
fn needles_are_trimmed_lowercased_and_non_empty() {
    assert_eq!(family_needles(&[" Noto Sans JP ", "", "   ", "ARIAL"]), strings(&["noto sans jp", "arial"]));
    assert!(family_needles(&[]).is_empty());
}

#[test]
fn face_matches_by_family_name() {
    let needles = family_needles(&["Noto Sans JP"]);
    assert!(face_matches(&needles, &strings(&["Other", "NOTO SANS JP"]), "Unrelated"));
    assert!(!face_matches(&needles, &strings(&["Noto Sans"]), "NotoSans-Regular"));
}

#[test]
fn face_matches_by_post_script_head() {
    let needles = family_needles(&["Pretendard"]);
    assert!(face_matches(&needles, &strings(&[]), "Pretendard-Bold"));
    assert!(face_matches(&needles, &strings(&["Something"]), "PRETENDARD"));
    assert!(!face_matches(&needles, &strings(&[]), "PretendardVariable-Bold"));
    assert!(!face_matches(&Vec::new(), &strings(&["Pretendard"]), "Pretendard-Bold"));
}
