//! Theme script-font context for CJK fallback during text rendering.
//!
//! Holds the script-keyed major / minor typefaces of the theme's font
//! scheme. For a script code the renderer asks which theme font to
//! prefer: the major one if present, else the minor one. Every script
//! is kept alike, with named helpers for the four CJK scripts.
use vstd::prelude::*;

use crate::strmap::{opt_str_view, string_lookup, StrMap};

verus! {

/// ISO 15924 codes of the four CJK scripts, in ascending code order.
pub const CJK_SCRIPT_CODES: [&'static str; 4] = ["Hang", "Hans", "Hant", "Jpan"];

/// Per-render theme script-font context.
pub struct ScriptFontContext {
    major: StrMap<String>,
    minor: StrMap<String>,
}

/// The major font for `code`, else the minor one.
pub open spec fn fallback_of(
    major: Map<Seq<char>, String>,
    minor: Map<Seq<char>, String>,
    code: Seq<char>,
) -> Option<Seq<char>> {
    if string_lookup(major, code) is Some {
        string_lookup(major, code)
    } else {
        string_lookup(minor, code)
    }
}

/// The `(code, fallback)` pairs, in the order of `codes`, of the codes
/// that have a fallback.
pub open spec fn present_fallbacks(
    major: Map<Seq<char>, String>,
    minor: Map<Seq<char>, String>,
    codes: Seq<Seq<char>>,
) -> Seq<(Seq<char>, Seq<char>)>
    decreases codes.len(),
{
    if codes.len() == 0 {
        Seq::empty()
    } else {
        let rest = present_fallbacks(major, minor, codes.drop_last());
        match fallback_of(major, minor, codes.last()) {
            Some(f) => rest.push((codes.last(), f)),
            None => rest,
        }
    }
}

/// The characters of each pair of borrowed strings.
pub open spec fn str_pairs_view(v: Seq<(&str, &str)>) -> Seq<(Seq<char>, Seq<char>)> {
    v.map_values(|p: (&str, &str)| (p.0@, p.1@))
}

impl ScriptFontContext {
    /// Both tables are well formed.
    pub closed spec fn wf(&self) -> bool {
        self.major.wf() && self.minor.wf()
    }

    /// The major-font table.
    pub closed spec fn major_map(&self) -> Map<Seq<char>, String> {
        self.major.as_map()
    }

    /// The minor-font table.
    pub closed spec fn minor_map(&self) -> Map<Seq<char>, String> {
        self.minor.as_map()
    }

    /// A context over explicit major / minor script-font tables, keyed by
    /// ISO 15924 script code.
    pub fn new(major: StrMap<String>, minor: StrMap<String>) -> (r: Self)
        requires
            major.wf(),
            minor.wf(),
        ensures
            r.wf(),
            r.major_map() == major.as_map(),
            r.minor_map() == minor.as_map(),
    {
        ScriptFontContext { major, minor }
    }

    /// An empty context: every lookup gives `None`.
    pub fn empty() -> (r: Self)
        ensures
            r.wf(),
            r.major_map() == Map::<Seq<char>, String>::empty(),
            r.minor_map() == Map::<Seq<char>, String>::empty(),
    {
        let major = StrMap::new();
        let minor = StrMap::new();
        proof {
            assert(major.as_map() =~= Map::<Seq<char>, String>::empty());
            assert(minor.as_map() =~= Map::<Seq<char>, String>::empty());
        }
        ScriptFontContext { major, minor }
    }

    /// The major-font typeface for script `code`.
    pub fn major_font(&self, code: &str) -> (r: Option<&str>)
        requires
            self.wf(),
        ensures
            opt_str_view(r) == string_lookup(self.major_map(), code@),
    {
        match self.major.get(code) {
            Some(v) => Some(v.as_str()),
            None => None,
        }
    }

    /// The minor-font typeface for script `code`.
    pub fn minor_font(&self, code: &str) -> (r: Option<&str>)
        requires
            self.wf(),
        ensures
            opt_str_view(r) == string_lookup(self.minor_map(), code@),
    {
        match self.minor.get(code) {
            Some(v) => Some(v.as_str()),
            None => None,
        }
    }

    /// The fallback typeface for script `code`: the major font if
    /// present, otherwise the minor font.
    pub fn fallback_font(&self, code: &str) -> (r: Option<&str>)
        requires
            self.wf(),
        ensures
            opt_str_view(r) == fallback_of(self.major_map(), self.minor_map(), code@),
    {
        match self.major_font(code) {
            Some(f) => Some(f),
            None => self.minor_font(code),
        }
    }

    /// Japanese (`Jpan`) fallback.
    pub fn jpan_fallback(&self) -> (r: Option<&str>)
        requires
            self.wf(),
        ensures
            opt_str_view(r) == fallback_of(self.major_map(), self.minor_map(), "Jpan"@),
    {
        self.fallback_font("Jpan")
    }

    /// Korean (`Hang`) fallback.
    pub fn hang_fallback(&self) -> (r: Option<&str>)
        requires
            self.wf(),
        ensures
            opt_str_view(r) == fallback_of(self.major_map(), self.minor_map(), "Hang"@),
    {
        self.fallback_font("Hang")
    }

    /// Simplified Chinese (`Hans`) fallback.
    pub fn hans_fallback(&self) -> (r: Option<&str>)
        requires
            self.wf(),
        ensures
            opt_str_view(r) == fallback_of(self.major_map(), self.minor_map(), "Hans"@),
    {
        self.fallback_font("Hans")
    }

    /// Traditional Chinese (`Hant`) fallback.
    pub fn hant_fallback(&self) -> (r: Option<&str>)
        requires
            self.wf(),
        ensures
            opt_str_view(r) == fallback_of(self.major_map(), self.minor_map(), "Hant"@),
    {
        self.fallback_font("Hant")
    }

    /// `(script_code, fallback_font)` for every CJK script of
    /// [`CJK_SCRIPT_CODES`], in that order, that has a fallback.
    pub fn cjk_fallbacks(&self) -> (r: Vec<(&'static str, &str)>)
        requires
            self.wf(),
        ensures
            str_pairs_view(r@) == present_fallbacks(
                self.major_map(),
                self.minor_map(),
                CJK_SCRIPT_CODES@.map_values(|c: &str| c@),
            ),
    {
        let ghost codes = CJK_SCRIPT_CODES@.map_values(|c: &str| c@);
        let mut out: Vec<(&'static str, &str)> = Vec::new();
        let mut i: usize = 0;
        proof {
            assert(codes.take(0) =~= Seq::<Seq<char>>::empty());
            assert(str_pairs_view(out@) =~= Seq::<(Seq<char>, Seq<char>)>::empty());
        }
        while i < 4
            invariant
                i <= 4,
                self.wf(),
                codes == CJK_SCRIPT_CODES@.map_values(|c: &str| c@),
                str_pairs_view(out@) == present_fallbacks(
                    self.major_map(),
                    self.minor_map(),
                    codes.take(i as int),
                ),
            decreases 4 - i,
        {
            let code = CJK_SCRIPT_CODES[i];
            proof {
                assert(codes.take(i + 1).drop_last() =~= codes.take(i as int));
                assert(codes.take(i + 1).last() == code@);
            }
            match self.fallback_font(code) {
                Some(f) => {
                    out.push((code, f));
                    assert(str_pairs_view(out@) =~= present_fallbacks(
                        self.major_map(),
                        self.minor_map(),
                        codes.take(i as int),
                    ).push((code@, f@)));
                },
                None => {},
            }
            i = i + 1;
        }
        proof {
            assert(codes.take(4) =~= codes);
        }
        out
    }

    /// Whether the context has no major or minor entry.
    pub fn is_empty(&self) -> (r: bool)
        requires
            self.wf(),
        ensures
            r == (self.major_map().dom().is_empty() && self.minor_map().dom().is_empty()),
    {
        proof {
            self.major.lemma_empty_iff();
            self.minor.lemma_empty_iff();
        }
        self.major.is_empty() && self.minor.is_empty()
    }

    /// The major-font script table.
    pub fn major_table(&self) -> (r: &StrMap<String>)
        requires
            self.wf(),
        ensures
            r.wf(),
            r.as_map() == self.major_map(),
    {
        &self.major
    }

    /// The minor-font script table.
    pub fn minor_table(&self) -> (r: &StrMap<String>)
        requires
            self.wf(),
        ensures
            r.wf(),
            r.as_map() == self.minor_map(),
    {
        &self.minor
    }
}

} // verus!
