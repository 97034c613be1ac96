//! Theme color schemes (ECMA-376 §20.1.6), the color map from document
//! names to scheme slots, preset colors, and the transforms a color
//! reference carries.
use vstd::prelude::*;

use crate::color::Rgb;
use crate::strs::{str_eq, str_to_string};

verus! {

/// A slot of a [`ColorScheme`]: the twelve slots of `<a:clrScheme>`.
#[derive(Copy, Clone, Debug, PartialEq, Eq, Hash, Structural)]
pub enum SchemeColorKey {
    /// Dark 1, usually primary text.
    Dk1,
    /// Light 1, usually primary background.
    Lt1,
    /// Dark 2.
    Dk2,
    /// Light 2.
    Lt2,
    /// Accent 1.
    Accent1,
    /// Accent 2.
    Accent2,
    /// Accent 3.
    Accent3,
    /// Accent 4.
    Accent4,
    /// Accent 5.
    Accent5,
    /// Accent 6.
    Accent6,
    /// Hyperlink color.
    Hlink,
    /// Followed hyperlink color.
    FolHlink,
}

/// The OOXML name of a slot.
pub open spec fn key_name(k: SchemeColorKey) -> Seq<char> {
    match k {
        SchemeColorKey::Dk1 => "dk1"@,
        SchemeColorKey::Lt1 => "lt1"@,
        SchemeColorKey::Dk2 => "dk2"@,
        SchemeColorKey::Lt2 => "lt2"@,
        SchemeColorKey::Accent1 => "accent1"@,
        SchemeColorKey::Accent2 => "accent2"@,
        SchemeColorKey::Accent3 => "accent3"@,
        SchemeColorKey::Accent4 => "accent4"@,
        SchemeColorKey::Accent5 => "accent5"@,
        SchemeColorKey::Accent6 => "accent6"@,
        SchemeColorKey::Hlink => "hlink"@,
        SchemeColorKey::FolHlink => "folHlink"@,
    }
}

/// The slot an OOXML name denotes, if any.
pub open spec fn key_from_name(s: Seq<char>) -> Option<SchemeColorKey> {
    if s == "dk1"@ {
        Some(SchemeColorKey::Dk1)
    } else if s == "lt1"@ {
        Some(SchemeColorKey::Lt1)
    } else if s == "dk2"@ {
        Some(SchemeColorKey::Dk2)
    } else if s == "lt2"@ {
        Some(SchemeColorKey::Lt2)
    } else if s == "accent1"@ {
        Some(SchemeColorKey::Accent1)
    } else if s == "accent2"@ {
        Some(SchemeColorKey::Accent2)
    } else if s == "accent3"@ {
        Some(SchemeColorKey::Accent3)
    } else if s == "accent4"@ {
        Some(SchemeColorKey::Accent4)
    } else if s == "accent5"@ {
        Some(SchemeColorKey::Accent5)
    } else if s == "accent6"@ {
        Some(SchemeColorKey::Accent6)
    } else if s == "hlink"@ {
        Some(SchemeColorKey::Hlink)
    } else if s == "folHlink"@ {
        Some(SchemeColorKey::FolHlink)
    } else {
        None
    }
}

/// A name that is none of the twelve slots.
#[derive(Debug, Clone, PartialEq, Eq)]
pub struct UnknownSchemeName(
    /// The name as supplied.
    pub String,
);

impl SchemeColorKey {
    /// The OOXML attribute value of the slot (`"accent1"`, `"folHlink"`).
    pub fn as_str(self) -> (r: &'static str)
        ensures
            r@ == key_name(self),
    {
        match self {
            SchemeColorKey::Dk1 => "dk1",
            SchemeColorKey::Lt1 => "lt1",
            SchemeColorKey::Dk2 => "dk2",
            SchemeColorKey::Lt2 => "lt2",
            SchemeColorKey::Accent1 => "accent1",
            SchemeColorKey::Accent2 => "accent2",
            SchemeColorKey::Accent3 => "accent3",
            SchemeColorKey::Accent4 => "accent4",
            SchemeColorKey::Accent5 => "accent5",
            SchemeColorKey::Accent6 => "accent6",
            SchemeColorKey::Hlink => "hlink",
            SchemeColorKey::FolHlink => "folHlink",
        }
    }

    /// The slot named `s`; the name itself as the error when it names
    /// none.
    pub fn from_name(s: &str) -> (r: Result<Self, UnknownSchemeName>)
        ensures
            match r {
                Ok(k) => key_from_name(s@) == Some(k),
                Err(e) => key_from_name(s@) is None && e.0@ == s@,
            },
    {
        if str_eq(s, "dk1") {
            Ok(SchemeColorKey::Dk1)
        } else if str_eq(s, "lt1") {
            Ok(SchemeColorKey::Lt1)
        } else if str_eq(s, "dk2") {
            Ok(SchemeColorKey::Dk2)
        } else if str_eq(s, "lt2") {
            Ok(SchemeColorKey::Lt2)
        } else if str_eq(s, "accent1") {
            Ok(SchemeColorKey::Accent1)
        } else if str_eq(s, "accent2") {
            Ok(SchemeColorKey::Accent2)
        } else if str_eq(s, "accent3") {
            Ok(SchemeColorKey::Accent3)
        } else if str_eq(s, "accent4") {
            Ok(SchemeColorKey::Accent4)
        } else if str_eq(s, "accent5") {
            Ok(SchemeColorKey::Accent5)
        } else if str_eq(s, "accent6") {
            Ok(SchemeColorKey::Accent6)
        } else if str_eq(s, "hlink") {
            Ok(SchemeColorKey::Hlink)
        } else if str_eq(s, "folHlink") {
            Ok(SchemeColorKey::FolHlink)
        } else {
            Err(UnknownSchemeName(str_to_string(s)))
        }
    }
}

impl core::str::FromStr for SchemeColorKey {
    type Err = UnknownSchemeName;

    fn from_str(s: &str) -> (r: Result<Self, UnknownSchemeName>)
        ensures
            match r {
                Ok(k) => key_from_name(s@) == Some(k),
                Err(e) => key_from_name(s@) is None && e.0@ == s@,
            },
    {
        SchemeColorKey::from_name(s)
    }
}

/// The twelve theme colors of `<a:clrScheme>`.
#[derive(Copy, Clone, Debug, PartialEq, Eq, Hash, Structural)]
pub struct ColorScheme {
    /// `dk1` slot.
    pub dk1: Rgb,
    /// `lt1` slot.
    pub lt1: Rgb,
    /// `dk2` slot.
    pub dk2: Rgb,
    /// `lt2` slot.
    pub lt2: Rgb,
    /// `accent1` slot.
    pub accent1: Rgb,
    /// `accent2` slot.
    pub accent2: Rgb,
    /// `accent3` slot.
    pub accent3: Rgb,
    /// `accent4` slot.
    pub accent4: Rgb,
    /// `accent5` slot.
    pub accent5: Rgb,
    /// `accent6` slot.
    pub accent6: Rgb,
    /// `hlink` slot.
    pub hlink: Rgb,
    /// `folHlink` slot.
    pub fol_hlink: Rgb,
}

/// The color a scheme stores at a slot.
pub open spec fn scheme_slot(s: ColorScheme, key: SchemeColorKey) -> Rgb {
    match key {
        SchemeColorKey::Dk1 => s.dk1,
        SchemeColorKey::Lt1 => s.lt1,
        SchemeColorKey::Dk2 => s.dk2,
        SchemeColorKey::Lt2 => s.lt2,
        SchemeColorKey::Accent1 => s.accent1,
        SchemeColorKey::Accent2 => s.accent2,
        SchemeColorKey::Accent3 => s.accent3,
        SchemeColorKey::Accent4 => s.accent4,
        SchemeColorKey::Accent5 => s.accent5,
        SchemeColorKey::Accent6 => s.accent6,
        SchemeColorKey::Hlink => s.hlink,
        SchemeColorKey::FolHlink => s.fol_hlink,
    }
}

impl ColorScheme {
    /// The color stored at `key`.
    pub fn get(&self, key: SchemeColorKey) -> (r: Rgb)
        ensures
            r == scheme_slot(*self, key),
    {
        match key {
            SchemeColorKey::Dk1 => self.dk1,
            SchemeColorKey::Lt1 => self.lt1,
            SchemeColorKey::Dk2 => self.dk2,
            SchemeColorKey::Lt2 => self.lt2,
            SchemeColorKey::Accent1 => self.accent1,
            SchemeColorKey::Accent2 => self.accent2,
            SchemeColorKey::Accent3 => self.accent3,
            SchemeColorKey::Accent4 => self.accent4,
            SchemeColorKey::Accent5 => self.accent5,
            SchemeColorKey::Accent6 => self.accent6,
            SchemeColorKey::Hlink => self.hlink,
            SchemeColorKey::FolHlink => self.fol_hlink,
        }
    }
}

/// `<p:clrMap>`: the slot each document-level color name denotes.
#[derive(Copy, Clone, Debug, PartialEq, Eq, Hash, Structural)]
pub struct ColorMap {
    /// `bg1`, usually `Lt1`.
    pub bg1: SchemeColorKey,
    /// `tx1`, usually `Dk1`.
    pub tx1: SchemeColorKey,
    /// `bg2`, usually `Lt2`.
    pub bg2: SchemeColorKey,
    /// `tx2`, usually `Dk2`.
    pub tx2: SchemeColorKey,
    /// `accent1` mapping.
    pub accent1: SchemeColorKey,
    /// `accent2` mapping.
    pub accent2: SchemeColorKey,
    /// `accent3` mapping.
    pub accent3: SchemeColorKey,
    /// `accent4` mapping.
    pub accent4: SchemeColorKey,
    /// `accent5` mapping.
    pub accent5: SchemeColorKey,
    /// `accent6` mapping.
    pub accent6: SchemeColorKey,
    /// `hlink` mapping.
    pub hlink: SchemeColorKey,
    /// `folHlink` mapping.
    pub fol_hlink: SchemeColorKey,
}

/// The default mapping (ECMA-376 §20.1.6.2): backgrounds to lights,
/// texts to darks, accents and links to themselves.
pub open spec fn default_color_map() -> ColorMap {
    ColorMap {
        bg1: SchemeColorKey::Lt1,
        tx1: SchemeColorKey::Dk1,
        bg2: SchemeColorKey::Lt2,
        tx2: SchemeColorKey::Dk2,
        accent1: SchemeColorKey::Accent1,
        accent2: SchemeColorKey::Accent2,
        accent3: SchemeColorKey::Accent3,
        accent4: SchemeColorKey::Accent4,
        accent5: SchemeColorKey::Accent5,
        accent6: SchemeColorKey::Accent6,
        hlink: SchemeColorKey::Hlink,
        fol_hlink: SchemeColorKey::FolHlink,
    }
}

/// The slot a document-level name resolves to: the map's own twelve
/// names first, then the slot names directly, else `Dk1`.
pub open spec fn resolve_name_in(m: ColorMap, name: Seq<char>) -> SchemeColorKey {
    if name == "bg1"@ {
        m.bg1
    } else if name == "tx1"@ {
        m.tx1
    } else if name == "bg2"@ {
        m.bg2
    } else if name == "tx2"@ {
        m.tx2
    } else if name == "accent1"@ {
        m.accent1
    } else if name == "accent2"@ {
        m.accent2
    } else if name == "accent3"@ {
        m.accent3
    } else if name == "accent4"@ {
        m.accent4
    } else if name == "accent5"@ {
        m.accent5
    } else if name == "accent6"@ {
        m.accent6
    } else if name == "hlink"@ {
        m.hlink
    } else if name == "folHlink"@ {
        m.fol_hlink
    } else {
        match key_from_name(name) {
            Some(k) => k,
            None => SchemeColorKey::Dk1,
        }
    }
}

impl Default for ColorMap {
    /// The default mapping.
    fn default() -> (r: Self)
        ensures
            r == default_color_map(),
    {
        ColorMap {
            bg1: SchemeColorKey::Lt1,
            tx1: SchemeColorKey::Dk1,
            bg2: SchemeColorKey::Lt2,
            tx2: SchemeColorKey::Dk2,
            accent1: SchemeColorKey::Accent1,
            accent2: SchemeColorKey::Accent2,
            accent3: SchemeColorKey::Accent3,
            accent4: SchemeColorKey::Accent4,
            accent5: SchemeColorKey::Accent5,
            accent6: SchemeColorKey::Accent6,
            hlink: SchemeColorKey::Hlink,
            fol_hlink: SchemeColorKey::FolHlink,
        }
    }
}

impl ColorMap {
    /// Resolves a document-level color name to a scheme slot: one of the
    /// map's twelve names, else a slot name, else `Dk1`.
    pub fn resolve_name(&self, name: &str) -> (r: SchemeColorKey)
        ensures
            r == resolve_name_in(*self, name@),
    {
        if str_eq(name, "bg1") {
            self.bg1
        } else if str_eq(name, "tx1") {
            self.tx1
        } else if str_eq(name, "bg2") {
            self.bg2
        } else if str_eq(name, "tx2") {
            self.tx2
        } else if str_eq(name, "accent1") {
            self.accent1
        } else if str_eq(name, "accent2") {
            self.accent2
        } else if str_eq(name, "accent3") {
            self.accent3
        } else if str_eq(name, "accent4") {
            self.accent4
        } else if str_eq(name, "accent5") {
            self.accent5
        } else if str_eq(name, "accent6") {
            self.accent6
        } else if str_eq(name, "hlink") {
            self.hlink
        } else if str_eq(name, "folHlink") {
            self.fol_hlink
        } else {
            match SchemeColorKey::from_name(name) {
                Ok(k) => k,
                Err(_) => SchemeColorKey::Dk1,
            }
        }
    }
}

/// The preset color named `name`: the eight base presets, by exact,
/// case-sensitive name.
pub open spec fn preset_rgb(name: Seq<char>) -> Option<Rgb> {
    if name == "black"@ {
        Some(Rgb { r: 0x00, g: 0x00, b: 0x00 })
    } else if name == "white"@ {
        Some(Rgb { r: 0xFF, g: 0xFF, b: 0xFF })
    } else if name == "red"@ {
        Some(Rgb { r: 0xFF, g: 0x00, b: 0x00 })
    } else if name == "green"@ {
        Some(Rgb { r: 0x00, g: 0x80, b: 0x00 })
    } else if name == "blue"@ {
        Some(Rgb { r: 0x00, g: 0x00, b: 0xFF })
    } else if name == "yellow"@ {
        Some(Rgb { r: 0xFF, g: 0xFF, b: 0x00 })
    } else if name == "cyan"@ {
        Some(Rgb { r: 0x00, g: 0xFF, b: 0xFF })
    } else if name == "magenta"@ {
        Some(Rgb { r: 0xFF, g: 0x00, b: 0xFF })
    } else {
        None
    }
}

/// Resolves an OOXML preset color name; `None` for names outside the
/// eight base presets.
pub fn resolve_preset(name: &str) -> (r: Option<Rgb>)
    ensures
        r == preset_rgb(name@),
{
    if str_eq(name, "black") {
        Some(Rgb::new(0x00, 0x00, 0x00))
    } else if str_eq(name, "white") {
        Some(Rgb::new(0xFF, 0xFF, 0xFF))
    } else if str_eq(name, "red") {
        Some(Rgb::new(0xFF, 0x00, 0x00))
    } else if str_eq(name, "green") {
        Some(Rgb::new(0x00, 0x80, 0x00))
    } else if str_eq(name, "blue") {
        Some(Rgb::new(0x00, 0x00, 0xFF))
    } else if str_eq(name, "yellow") {
        Some(Rgb::new(0xFF, 0xFF, 0x00))
    } else if str_eq(name, "cyan") {
        Some(Rgb::new(0x00, 0xFF, 0xFF))
    } else if str_eq(name, "magenta") {
        Some(Rgb::new(0xFF, 0x00, 0xFF))
    } else {
        None
    }
}

/// A transform amount in 1/100000 units, as OOXML stores it
/// (`PerMille(50000)` is 50%).
#[derive(Copy, Clone, Debug, PartialEq, Eq, Hash, Structural)]
pub struct PerMille(pub i32);

impl PerMille {
    /// Wraps a raw amount.
    pub fn new(value: i32) -> (r: Self)
        ensures
            r.0 == value,
    {
        PerMille(value)
    }
}

/// The transforms inside a color element, each optional.
#[derive(Copy, Clone, Debug, PartialEq, Eq, Hash, Structural)]
pub struct ColorTransform {
    /// `<a:lumMod>`: multiplies HSL luminance.
    pub lum_mod: Option<PerMille>,
    /// `<a:lumOff>`: adds to HSL luminance.
    pub lum_off: Option<PerMille>,
    /// `<a:satMod>`: multiplies HSL saturation.
    pub sat_mod: Option<PerMille>,
    /// `<a:satOff>`: adds to HSL saturation.
    pub sat_off: Option<PerMille>,
    /// `<a:tint>`: blend toward white.
    pub tint: Option<PerMille>,
    /// `<a:shade>`: blend toward black.
    pub shade: Option<PerMille>,
    /// `<a:alpha>`: opacity, overriding any earlier alpha.
    pub alpha: Option<PerMille>,
}

impl Default for ColorTransform {
    /// No transform.
    fn default() -> (r: Self)
        ensures
            r == (ColorTransform {
                lum_mod: None,
                lum_off: None,
                sat_mod: None,
                sat_off: None,
                tint: None,
                shade: None,
                alpha: None,
            }),
    {
        ColorTransform {
            lum_mod: None,
            lum_off: None,
            sat_mod: None,
            sat_off: None,
            tint: None,
            shade: None,
            alpha: None,
        }
    }
}

/// An unresolved color reference inside a fill, text or effect element.
#[derive(Clone, Debug, PartialEq)]
pub enum ColorRef {
    /// `<a:srgbClr>`: a direct sRGB color.
    Srgb {
        /// The color.
        rgb: Rgb,
        /// Inline transforms.
        transform: ColorTransform,
    },
    /// `<a:schemeClr>`: a theme color, by a name the color map resolves.
    Scheme {
        /// The name as stored (`bg1`, `tx1`, `accent1`, `dk1`, ...).
        name: String,
        /// Inline transforms.
        transform: ColorTransform,
    },
    /// `<a:sysClr>`: a system color, by its last serialized value.
    System {
        /// The `lastClr` value.
        last: Rgb,
        /// Inline transforms.
        transform: ColorTransform,
    },
    /// `<a:prstClr>`: a named preset color.
    Preset {
        /// The preset name as stored (case-sensitive).
        name: String,
        /// Inline transforms.
        transform: ColorTransform,
    },
}

/// Resolves color references against a scheme and a color map.
#[derive(Copy, Clone, Debug, PartialEq, Eq, Structural)]
pub struct ColorResolver {
    /// The twelve theme colors.
    pub scheme: ColorScheme,
    /// Document-level names to slots.
    pub map: ColorMap,
}

/// The color a reference starts from, before its transforms: the
/// direct color, the scheme color its name resolves to, the system
/// color's last value, or the preset (black for an unknown preset).
pub open spec fn base_color_of(res: ColorResolver, c: ColorRef) -> (Rgb, ColorTransform) {
    match c {
        ColorRef::Srgb { rgb, transform } => (rgb, transform),
        ColorRef::Scheme { name, transform } => (
            scheme_slot(res.scheme, resolve_name_in(res.map, name@)),
            transform,
        ),
        ColorRef::System { last, transform } => (last, transform),
        ColorRef::Preset { name, transform } => (
            match preset_rgb(name@) {
                Some(p) => p,
                None => Rgb { r: 0, g: 0, b: 0 },
            },
            transform,
        ),
    }
}

impl ColorResolver {
    /// A resolver over `scheme` and `map`.
    pub fn new(scheme: ColorScheme, map: ColorMap) -> (r: Self)
        ensures
            r.scheme == scheme,
            r.map == map,
    {
        ColorResolver { scheme, map }
    }

    /// The base color of `color_ref` and the transforms to apply to it.
    pub fn base_color(&self, color_ref: &ColorRef) -> (r: (Rgb, ColorTransform))
        ensures
            r == base_color_of(*self, *color_ref),
    {
        match color_ref {
            ColorRef::Srgb { rgb, transform } => (*rgb, *transform),
            ColorRef::Scheme { name, transform } => {
                let key = self.map.resolve_name(name.as_str());
                (self.scheme.get(key), *transform)
            },
            ColorRef::System { last, transform } => (*last, *transform),
            ColorRef::Preset { name, transform } => {
                let base = match resolve_preset(name.as_str()) {
                    Some(p) => p,
                    None => Rgb::new(0, 0, 0),
                };
                (base, *transform)
            },
        }
    }
}

proof fn lemma_slot_names()
    ensures
        "dk1"@ == seq!['d', 'k', '1'],
        "lt1"@ == seq!['l', 't', '1'],
        "dk2"@ == seq!['d', 'k', '2'],
        "lt2"@ == seq!['l', 't', '2'],
        "accent1"@ == seq!['a', 'c', 'c', 'e', 'n', 't', '1'],
        "accent2"@ == seq!['a', 'c', 'c', 'e', 'n', 't', '2'],
        "accent3"@ == seq!['a', 'c', 'c', 'e', 'n', 't', '3'],
        "accent4"@ == seq!['a', 'c', 'c', 'e', 'n', 't', '4'],
        "accent5"@ == seq!['a', 'c', 'c', 'e', 'n', 't', '5'],
        "accent6"@ == seq!['a', 'c', 'c', 'e', 'n', 't', '6'],
        "hlink"@ == seq!['h', 'l', 'i', 'n', 'k'],
        "folHlink"@ == seq!['f', 'o', 'l', 'H', 'l', 'i', 'n', 'k'],
        "bg1"@ == seq!['b', 'g', '1'],
        "tx1"@ == seq!['t', 'x', '1'],
        "bg2"@ == seq!['b', 'g', '2'],
        "tx2"@ == seq!['t', 'x', '2'],
{
    reveal_strlit("dk1");
    reveal_strlit("lt1");
    reveal_strlit("dk2");
    reveal_strlit("lt2");
    reveal_strlit("accent1");
    reveal_strlit("accent2");
    reveal_strlit("accent3");
    reveal_strlit("accent4");
    reveal_strlit("accent5");
    reveal_strlit("accent6");
    reveal_strlit("hlink");
    reveal_strlit("folHlink");
    reveal_strlit("bg1");
    reveal_strlit("tx1");
    reveal_strlit("bg2");
    reveal_strlit("tx2");
}

/// Two sequences that differ at some index are different.
proof fn lemma_differ_at(a: Seq<char>, b: Seq<char>, i: int)
    requires
        0 <= i < a.len(),
        i < b.len(),
        a[i] != b[i],
    ensures
        a != b,
{
}

/// The name of a slot denotes that slot.
pub proof fn law_slot_name_roundtrip(k: SchemeColorKey)
    ensures
        key_from_name(key_name(k)) == Some(k),
{
    lemma_slot_names();
    let n = key_name(k);
    assert(n.len() == 3 ==> n != "accent1"@ && n != "accent2"@ && n != "accent3"@ && n
        != "accent4"@ && n != "accent5"@ && n != "accent6"@ && n != "hlink"@ && n != "folHlink"@);
    match k {
        SchemeColorKey::Lt1 => {
            lemma_differ_at(n, "dk1"@, 0);
        },
        SchemeColorKey::Dk2 => {
            lemma_differ_at(n, "dk1"@, 2);
            lemma_differ_at(n, "lt1"@, 0);
        },
        SchemeColorKey::Lt2 => {
            lemma_differ_at(n, "dk1"@, 0);
            lemma_differ_at(n, "lt1"@, 2);
            lemma_differ_at(n, "dk2"@, 0);
        },
        SchemeColorKey::Accent2 => {
            lemma_differ_at(n, "accent1"@, 6);
        },
        SchemeColorKey::Accent3 => {
            lemma_differ_at(n, "accent1"@, 6);
            lemma_differ_at(n, "accent2"@, 6);
        },
        SchemeColorKey::Accent4 => {
            lemma_differ_at(n, "accent1"@, 6);
            lemma_differ_at(n, "accent2"@, 6);
            lemma_differ_at(n, "accent3"@, 6);
        },
        SchemeColorKey::Accent5 => {
            lemma_differ_at(n, "accent1"@, 6);
            lemma_differ_at(n, "accent2"@, 6);
            lemma_differ_at(n, "accent3"@, 6);
            lemma_differ_at(n, "accent4"@, 6);
        },
        SchemeColorKey::Accent6 => {
            lemma_differ_at(n, "accent1"@, 6);
            lemma_differ_at(n, "accent2"@, 6);
            lemma_differ_at(n, "accent3"@, 6);
            lemma_differ_at(n, "accent4"@, 6);
            lemma_differ_at(n, "accent5"@, 6);
        },
        _ => {},
    }
}

/// The default color map resolves the name of every slot to that slot.
pub proof fn law_default_map_resolves_slot_names(k: SchemeColorKey)
    ensures
        resolve_name_in(default_color_map(), key_name(k)) == k,
{
    law_slot_name_roundtrip(k);
    lemma_slot_names();
    let n = key_name(k);
    if n.len() == 3 {
        lemma_differ_at(n, "bg1"@, 0);
        lemma_differ_at(n, "tx1"@, 0);
        lemma_differ_at(n, "bg2"@, 0);
        lemma_differ_at(n, "tx2"@, 0);
    }
    match k {
        SchemeColorKey::Accent2 => {
            lemma_differ_at(n, "accent1"@, 6);
        },
        SchemeColorKey::Accent3 => {
            lemma_differ_at(n, "accent1"@, 6);
            lemma_differ_at(n, "accent2"@, 6);
        },
        SchemeColorKey::Accent4 => {
            lemma_differ_at(n, "accent1"@, 6);
            lemma_differ_at(n, "accent2"@, 6);
            lemma_differ_at(n, "accent3"@, 6);
        },
        SchemeColorKey::Accent5 => {
            lemma_differ_at(n, "accent1"@, 6);
            lemma_differ_at(n, "accent2"@, 6);
            lemma_differ_at(n, "accent3"@, 6);
            lemma_differ_at(n, "accent4"@, 6);
        },
        SchemeColorKey::Accent6 => {
            lemma_differ_at(n, "accent1"@, 6);
            lemma_differ_at(n, "accent2"@, 6);
            lemma_differ_at(n, "accent3"@, 6);
            lemma_differ_at(n, "accent4"@, 6);
            lemma_differ_at(n, "accent5"@, 6);
        },
        _ => {},
    }
}

/// Whatever slots a color map assigns, each of its twelve document-level
/// names (`bg1`, `tx1`, `bg2`, `tx2`, `accent1`..`accent6`, `hlink`,
/// `folHlink`) resolves to the map's own entry for that name.
pub proof fn law_map_names_resolve_to_own_entries(m: ColorMap)
    ensures
        resolve_name_in(m, seq!['b', 'g', '1']) == m.bg1,
        resolve_name_in(m, seq!['t', 'x', '1']) == m.tx1,
        resolve_name_in(m, seq!['b', 'g', '2']) == m.bg2,
        resolve_name_in(m, seq!['t', 'x', '2']) == m.tx2,
        resolve_name_in(m, seq!['a', 'c', 'c', 'e', 'n', 't', '1']) == m.accent1,
        resolve_name_in(m, seq!['a', 'c', 'c', 'e', 'n', 't', '2']) == m.accent2,
        resolve_name_in(m, seq!['a', 'c', 'c', 'e', 'n', 't', '3']) == m.accent3,
        resolve_name_in(m, seq!['a', 'c', 'c', 'e', 'n', 't', '4']) == m.accent4,
        resolve_name_in(m, seq!['a', 'c', 'c', 'e', 'n', 't', '5']) == m.accent5,
        resolve_name_in(m, seq!['a', 'c', 'c', 'e', 'n', 't', '6']) == m.accent6,
        resolve_name_in(m, seq!['h', 'l', 'i', 'n', 'k']) == m.hlink,
        resolve_name_in(m, seq!['f', 'o', 'l', 'H', 'l', 'i', 'n', 'k']) == m.fol_hlink,
{
    lemma_slot_names();
    lemma_differ_at("tx1"@, "bg1"@, 0);
    lemma_differ_at("bg2"@, "bg1"@, 2);
    lemma_differ_at("bg2"@, "tx1"@, 0);
    lemma_differ_at("tx2"@, "bg1"@, 0);
    lemma_differ_at("tx2"@, "tx1"@, 2);
    lemma_differ_at("tx2"@, "bg2"@, 0);
    lemma_differ_at("accent2"@, "accent1"@, 6);
    lemma_differ_at("accent3"@, "accent1"@, 6);
    lemma_differ_at("accent3"@, "accent2"@, 6);
    lemma_differ_at("accent4"@, "accent1"@, 6);
    lemma_differ_at("accent4"@, "accent2"@, 6);
    lemma_differ_at("accent4"@, "accent3"@, 6);
    lemma_differ_at("accent5"@, "accent1"@, 6);
    lemma_differ_at("accent5"@, "accent2"@, 6);
    lemma_differ_at("accent5"@, "accent3"@, 6);
    lemma_differ_at("accent5"@, "accent4"@, 6);
    lemma_differ_at("accent6"@, "accent1"@, 6);
    lemma_differ_at("accent6"@, "accent2"@, 6);
    lemma_differ_at("accent6"@, "accent3"@, 6);
    lemma_differ_at("accent6"@, "accent4"@, 6);
    lemma_differ_at("accent6"@, "accent5"@, 6);
}

/// Under any color map, the four base slot names `dk1`, `lt1`, `dk2` and
/// `lt2`, which are not among the map's own names, denote their slots.
pub proof fn law_base_slot_names_ignore_the_map(m: ColorMap)
    ensures
        resolve_name_in(m, seq!['d', 'k', '1']) == SchemeColorKey::Dk1,
        resolve_name_in(m, seq!['l', 't', '1']) == SchemeColorKey::Lt1,
        resolve_name_in(m, seq!['d', 'k', '2']) == SchemeColorKey::Dk2,
        resolve_name_in(m, seq!['l', 't', '2']) == SchemeColorKey::Lt2,
{
    lemma_slot_names();
    let map_names = seq!["bg1"@, "tx1"@, "bg2"@, "tx2"@];
    let slots = seq!["dk1"@, "lt1"@, "dk2"@, "lt2"@];
    assert forall|a: int, b: int| 0 <= a < 4 && 0 <= b < 4 implies slots[a] != map_names[b] by {
        lemma_differ_at(slots[a], map_names[b], 0);
    }
    lemma_differ_at("lt1"@, "dk1"@, 0);
    lemma_differ_at("dk2"@, "dk1"@, 2);
    lemma_differ_at("dk2"@, "lt1"@, 0);
    lemma_differ_at("lt2"@, "dk1"@, 0);
    lemma_differ_at("lt2"@, "lt1"@, 2);
    lemma_differ_at("lt2"@, "dk2"@, 0);
    assert(slots[0] == "dk1"@ && slots[1] == "lt1"@ && slots[2] == "dk2"@ && slots[3] == "lt2"@);
    assert(map_names[0] == "bg1"@ && map_names[1] == "tx1"@ && map_names[2] == "bg2"@
        && map_names[3] == "tx2"@);
}

/// A name that is neither one of the map's twelve names nor one of the
/// twelve slot names resolves to `Dk1`, whatever the map.
pub proof fn law_unknown_names_resolve_to_dk1(m: ColorMap, name: Seq<char>)
    requires
        name != "bg1"@ && name != "tx1"@ && name != "bg2"@ && name != "tx2"@,
        name != "dk1"@ && name != "lt1"@ && name != "dk2"@ && name != "lt2"@,
        name != "accent1"@ && name != "accent2"@ && name != "accent3"@ && name != "accent4"@,
        name != "accent5"@ && name != "accent6"@ && name != "hlink"@ && name != "folHlink"@,
    ensures
        resolve_name_in(m, name) == SchemeColorKey::Dk1,
{
}

} // verus!
