use slideglance::cjk_fallback::CjkPlatform;
use slideglance::latin_defaults::get_latin_os_defaults;


#[test]
fn macos_chain_starts_with_helvetica_neue() {
    assert_eq!(
        get_latin_os_defaults(CjkPlatform::MacOs)[0],
        "Helvetica Neue"
    );
}

#[test]
fn windows_chain_starts_with_segoe_ui() {
    assert_eq!(get_latin_os_defaults(CjkPlatform::Windows)[0], "Segoe UI");
}

#[test]
fn linux_chain_starts_with_liberation_sans() {
    assert_eq!(
        get_latin_os_defaults(CjkPlatform::Linux)[0],
        "Liberation Sans"
    );
}

#[test]
fn other_chain_is_non_empty() {
    // Ensures every platform variant has at least one fallback so
    // the chain never collapses to just the CSS generic.
    assert!(!get_latin_os_defaults(CjkPlatform::Other).is_empty());
}

#[test]
fn no_chain_is_empty() {
    for p in [
        CjkPlatform::MacOs,
        CjkPlatform::Windows,
        CjkPlatform::Linux,
        CjkPlatform::Other,
    ] {
        assert!(!get_latin_os_defaults(p).is_empty(), "platform {p:?}");
    }
}

#[test]
fn every_chain_ends_with_a_common_face() {
    assert_eq!(get_latin_os_defaults(CjkPlatform::MacOs), &["Helvetica Neue", "Helvetica", "Arial"]);
    assert_eq!(get_latin_os_defaults(CjkPlatform::Other), &["Arial", "Liberation Sans"]);
}
