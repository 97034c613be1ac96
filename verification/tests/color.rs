use slideglance::color::{ColorParseError, Rgb};
use slideglance::scheme::{
    resolve_preset, ColorMap, ColorRef, ColorResolver, ColorScheme, ColorTransform, PerMille,
    SchemeColorKey, UnknownSchemeName,
};
use std::str::FromStr;

#[test]
fn known_names_resolve() {
    assert_eq!(resolve_preset("black"), Some(Rgb::new(0, 0, 0)));
    assert_eq!(resolve_preset("white"), Some(Rgb::new(0xFF, 0xFF, 0xFF)));
    assert_eq!(resolve_preset("red"), Some(Rgb::new(0xFF, 0, 0)));
    assert_eq!(resolve_preset("green"), Some(Rgb::new(0, 0x80, 0)));
    assert_eq!(resolve_preset("blue"), Some(Rgb::new(0, 0, 0xFF)));
    assert_eq!(resolve_preset("yellow"), Some(Rgb::new(0xFF, 0xFF, 0)));
    assert_eq!(resolve_preset("cyan"), Some(Rgb::new(0, 0xFF, 0xFF)));
    assert_eq!(resolve_preset("magenta"), Some(Rgb::new(0xFF, 0, 0xFF)));
}

#[test]
fn unknown_names_return_none() {
    assert_eq!(resolve_preset("aliceBlue"), None);
    assert_eq!(resolve_preset("BLACK"), None); // case-sensitive
    assert_eq!(resolve_preset(""), None);
}

#[test]
fn parses_uppercase_hash_prefixed() {
    assert_eq!(
        Rgb::from_hex("#FF0000").unwrap(),
        Rgb::new(0xFF, 0x00, 0x00)
    );
}

#[test]
fn parses_lowercase_no_prefix() {
    assert_eq!(Rgb::from_hex("00ff00").unwrap(), Rgb::new(0x00, 0xFF, 0x00));
}

#[test]
fn rejects_wrong_length() {
    assert!(matches!(
        Rgb::from_hex("#FFF"),
        Err(ColorParseError::WrongLength { got: 3 })
    ));
}

#[test]
fn rejects_invalid_digit() {
    assert!(matches!(
        Rgb::from_hex("#GG0000"),
        Err(ColorParseError::InvalidDigit(_))
    ));
}

#[test]
fn formats_hex_lower_and_upper() {
    let c = Rgb::new(0xAB, 0xCD, 0xEF);
    assert_eq!(c.to_hex_lower(), "#abcdef");
    assert_eq!(c.to_hex_upper(), "#ABCDEF");
}

// -- own tests -------------------------------------------------------------

#[test]
fn hex_roundtrip_lower_and_upper() {
    for c in [Rgb::new(0, 0, 0), Rgb::new(0x12, 0x9A, 0xFE), Rgb::new(255, 255, 255)] {
        assert_eq!(Rgb::from_hex(&c.to_hex_lower()), Ok(c));
        assert_eq!(Rgb::from_hex(&c.to_hex_upper()), Ok(c));
    }
}

#[test]
fn formats_pads_small_channels() {
    assert_eq!(Rgb::new(1, 2, 3).to_hex_lower(), "#010203");
}

#[test]
fn plus_signs_are_not_hex_digits() {
    assert!(matches!(Rgb::from_hex("+1+2+3"), Err(ColorParseError::InvalidDigit(_))));
    assert!(matches!(Rgb::from_hex("#+F+1+0"), Err(ColorParseError::InvalidDigit(_))));
    assert!(matches!(
        Rgb::from_hex("#++0000"),
        Err(ColorParseError::InvalidDigit(_))
    ));
}

#[test]
fn non_ascii_body_reports_byte_length() {
    // three two-byte characters: six bytes but not ASCII
    assert_eq!(
        Rgb::from_hex("#ÿÿÿ"),
        Err(ColorParseError::WrongLength { got: 6 })
    );
    assert_eq!(
        Rgb::from_hex("é"),
        Err(ColorParseError::WrongLength { got: 2 })
    );
}

#[test]
fn empty_and_hash_only_are_wrong_length() {
    assert_eq!(Rgb::from_hex(""), Err(ColorParseError::WrongLength { got: 0 }));
    assert_eq!(Rgb::from_hex("#"), Err(ColorParseError::WrongLength { got: 0 }));
    assert_eq!(
        Rgb::from_hex("##FF0000"),
        Err(ColorParseError::WrongLength { got: 7 })
    );
}

#[test]
fn scheme_key_names_roundtrip() {
    let keys = [
        SchemeColorKey::Dk1,
        SchemeColorKey::Lt1,
        SchemeColorKey::Dk2,
        SchemeColorKey::Lt2,
        SchemeColorKey::Accent1,
        SchemeColorKey::Accent2,
        SchemeColorKey::Accent3,
        SchemeColorKey::Accent4,
        SchemeColorKey::Accent5,
        SchemeColorKey::Accent6,
        SchemeColorKey::Hlink,
        SchemeColorKey::FolHlink,
    ];
    for k in keys {
        assert_eq!(SchemeColorKey::from_str(k.as_str()), Ok(k));
    }
    assert_eq!(SchemeColorKey::Accent1.as_str(), "accent1");
    assert_eq!(SchemeColorKey::FolHlink.as_str(), "folHlink");
}

#[test]
fn unknown_scheme_name_is_returned() {
    assert_eq!(
        SchemeColorKey::from_name("bg1"),
        Err(UnknownSchemeName("bg1".to_string()))
    );
}

fn scheme() -> ColorScheme {
    ColorScheme {
        dk1: Rgb::new(0, 0, 0),
        lt1: Rgb::new(255, 255, 255),
        dk2: Rgb::new(0x44, 0x54, 0x6A),
        lt2: Rgb::new(0xE7, 0xE6, 0xE6),
        accent1: Rgb::new(0x44, 0x72, 0xC4),
        accent2: Rgb::new(0xED, 0x7D, 0x31),
        accent3: Rgb::new(0xA5, 0xA5, 0xA5),
        accent4: Rgb::new(0xFF, 0xC0, 0x00),
        accent5: Rgb::new(0x5B, 0x9B, 0xD5),
        accent6: Rgb::new(0x70, 0xAD, 0x47),
        hlink: Rgb::new(0x05, 0x63, 0xC1),
        fol_hlink: Rgb::new(0x95, 0x4F, 0x72),
    }
}

#[test]
fn default_color_map_resolves_documents_names() {
    let m = ColorMap::default();
    assert_eq!(m.resolve_name("bg1"), SchemeColorKey::Lt1);
    assert_eq!(m.resolve_name("tx1"), SchemeColorKey::Dk1);
    assert_eq!(m.resolve_name("bg2"), SchemeColorKey::Lt2);
    assert_eq!(m.resolve_name("tx2"), SchemeColorKey::Dk2);
    assert_eq!(m.resolve_name("accent3"), SchemeColorKey::Accent3);
    assert_eq!(m.resolve_name("dk2"), SchemeColorKey::Dk2);
    assert_eq!(m.resolve_name("lt1"), SchemeColorKey::Lt1);
    assert_eq!(m.resolve_name("nonsense"), SchemeColorKey::Dk1);
}

#[test]
fn custom_color_map_overrides_background() {
    let mut m = ColorMap::default();
    m.bg1 = SchemeColorKey::Dk1;
    assert_eq!(m.resolve_name("bg1"), SchemeColorKey::Dk1);
    // slot names bypass the map's own entries
    assert_eq!(m.resolve_name("lt1"), SchemeColorKey::Lt1);
}

#[test]
fn scheme_get_returns_each_slot() {
    let s = scheme();
    assert_eq!(s.get(SchemeColorKey::Accent2), Rgb::new(0xED, 0x7D, 0x31));
    assert_eq!(s.get(SchemeColorKey::FolHlink), Rgb::new(0x95, 0x4F, 0x72));
    assert_eq!(s.get(SchemeColorKey::Lt1), Rgb::new(255, 255, 255));
}

#[test]
fn resolver_base_colors() {
    let r = ColorResolver::new(scheme(), ColorMap::default());
    let t = ColorTransform {
        lum_mod: Some(PerMille::new(50000)),
        ..ColorTransform::default()
    };
    assert_eq!(
        r.base_color(&ColorRef::Srgb { rgb: Rgb::new(1, 2, 3), transform: t }),
        (Rgb::new(1, 2, 3), t)
    );
    assert_eq!(
        r.base_color(&ColorRef::Scheme { name: "bg1".to_string(), transform: t }),
        (Rgb::new(255, 255, 255), t)
    );
    assert_eq!(
        r.base_color(&ColorRef::System { last: Rgb::new(9, 9, 9), transform: t }).0,
        Rgb::new(9, 9, 9)
    );
    assert_eq!(
        r.base_color(&ColorRef::Preset { name: "red".to_string(), transform: t }).0,
        Rgb::new(255, 0, 0)
    );
    assert_eq!(
        r.base_color(&ColorRef::Preset { name: "teal".to_string(), transform: t }).0,
        Rgb::new(0, 0, 0)
    );
}

#[test]
fn per_mille_wraps_raw_value() {
    assert_eq!(PerMille::new(50000).0, 50000);
    assert_eq!(ColorTransform::default().alpha, None);
}
