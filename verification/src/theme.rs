//! The theme's font scheme: major / minor fonts per script.
use vstd::prelude::*;

use crate::strmap::{opt_str_view, string_lookup, StrMap};

verus! {

/// `<a:fontScheme>`: major / minor Latin, East-Asian and complex-script
/// typefaces, plus every `<a:font script="...">` entry keyed by its
/// ISO 15924 script code. Every script of the source is kept alike.
#[derive(Clone, Debug, PartialEq, Eq)]
pub struct FontScheme {
    /// `<a:majorFont><a:latin>` typeface.
    pub major_font: String,
    /// `<a:minorFont><a:latin>` typeface.
    pub minor_font: String,
    /// `<a:majorFont><a:ea>` typeface.
    pub major_font_ea: Option<String>,
    /// `<a:minorFont><a:ea>` typeface.
    pub minor_font_ea: Option<String>,
    /// `<a:majorFont><a:cs>` typeface.
    pub major_font_cs: Option<String>,
    /// `<a:minorFont><a:cs>` typeface.
    pub minor_font_cs: Option<String>,
    /// Script-keyed major-font typefaces.
    pub major_script_fonts: StrMap<String>,
    /// Script-keyed minor-font typefaces.
    pub minor_script_fonts: StrMap<String>,
}

impl FontScheme {
    /// Both script tables are well formed.
    pub open spec fn wf(&self) -> bool {
        self.major_script_fonts.wf() && self.minor_script_fonts.wf()
    }

    /// An empty scheme: empty names, no optional faces, no script fonts.
    pub fn new() -> (r: Self)
        ensures
            r.wf(),
            r.major_font@ == Seq::<char>::empty(),
            r.minor_font@ == Seq::<char>::empty(),
            r.major_font_ea is None,
            r.minor_font_ea is None,
            r.major_font_cs is None,
            r.minor_font_cs is None,
            r.major_script_fonts.as_map() == Map::<Seq<char>, String>::empty(),
            r.minor_script_fonts.as_map() == Map::<Seq<char>, String>::empty(),
    {
        let major_script_fonts = StrMap::new();
        let minor_script_fonts = StrMap::new();
        proof {
            assert(major_script_fonts.as_map() =~= Map::<Seq<char>, String>::empty());
            assert(minor_script_fonts.as_map() =~= Map::<Seq<char>, String>::empty());
        }
        FontScheme {
            major_font: String::new(),
            minor_font: String::new(),
            major_font_ea: None,
            minor_font_ea: None,
            major_font_cs: None,
            minor_font_cs: None,
            major_script_fonts,
            minor_script_fonts,
        }
    }

    /// The major-font typeface for ISO 15924 script `code`, if any.
    pub fn major_script_font(&self, code: &str) -> (r: Option<&str>)
        requires
            self.wf(),
        ensures
            opt_str_view(r) == string_lookup(self.major_script_fonts.as_map(), code@),
    {
        match self.major_script_fonts.get(code) {
            Some(v) => Some(v.as_str()),
            None => None,
        }
    }

    /// The minor-font typeface for ISO 15924 script `code`, if any.
    pub fn minor_script_font(&self, code: &str) -> (r: Option<&str>)
        requires
            self.wf(),
        ensures
            opt_str_view(r) == string_lookup(self.minor_script_fonts.as_map(), code@),
    {
        match self.minor_script_fonts.get(code) {
            Some(v) => Some(v.as_str()),
            None => None,
        }
    }
}

} // verus!
