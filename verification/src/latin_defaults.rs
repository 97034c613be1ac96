//! OS-default Latin sans-serif families.
//!
//! They stand in the font-family chain after the authored typeface and
//! its fallbacks but before the theme's CJK script fonts, so a Latin
//! run reaches a known-good Latin face before any CJK font's Latin
//! subset.
use vstd::prelude::*;

use crate::cjk_fallback::CjkPlatform;

verus! {

/// macOS: all three ship with every modern release.
pub const MACOS_LATIN_DEFAULTS: [&'static str; 3] = ["Helvetica Neue", "Helvetica", "Arial"];

/// Windows: the system UI face, then older and reduced-install faces.
pub const WINDOWS_LATIN_DEFAULTS: [&'static str; 3] = ["Segoe UI", "Arial", "Tahoma"];

/// Linux: the usual desktop faces, then `Arial` for msttcorefonts users.
pub const LINUX_LATIN_DEFAULTS: [&'static str; 3] = ["Liberation Sans", "DejaVu Sans", "Arial"];

/// Unidentified targets: a conservative pair.
pub const OTHER_LATIN_DEFAULTS: [&'static str; 2] = ["Arial", "Liberation Sans"];

/// The Latin defaults of `platform`.
pub open spec fn latin_defaults_of(platform: CjkPlatform) -> Seq<&'static str> {
    match platform {
        CjkPlatform::MacOs => MACOS_LATIN_DEFAULTS@,
        CjkPlatform::Windows => WINDOWS_LATIN_DEFAULTS@,
        CjkPlatform::Linux => LINUX_LATIN_DEFAULTS@,
        CjkPlatform::Other => OTHER_LATIN_DEFAULTS@,
    }
}

/// The OS-default Latin sans-serif typefaces for `platform`, in
/// priority order; never empty.
pub fn get_latin_os_defaults(platform: CjkPlatform) -> (r: &'static [&'static str])
    ensures
        r@ == latin_defaults_of(platform),
        r@.len() >= 2,
{
    match platform {
        CjkPlatform::MacOs => &MACOS_LATIN_DEFAULTS,
        CjkPlatform::Windows => &WINDOWS_LATIN_DEFAULTS,
        CjkPlatform::Linux => &LINUX_LATIN_DEFAULTS,
        CjkPlatform::Other => &OTHER_LATIN_DEFAULTS,
    }
}

} // verus!
