//! Host-supplied font fetcher: the integration point for Google Fonts,
//! an internal CDN or a precomputed bundle. The host decides where the
//! bytes come from; `None` means the family is unavailable.
use vstd::prelude::*;

verus! {

/// Host callback that returns ttf / otf / ttc bytes for a font family,
/// or `None` when the family is not available.
pub trait FontFetcher {
    /// Whether `fetch` may be called with `family`.
    spec fn accepts(&self, family: &str) -> bool;

    /// Fetches the bytes for `family`.
    fn fetch(&self, family: &str) -> Option<Vec<u8>>
        requires
            self.accepts(family),
    ;
}

/// A closure from a family name to optional bytes is a fetcher.
impl<F: Fn(&str) -> Option<Vec<u8>>> FontFetcher for F {
    open spec fn accepts(&self, family: &str) -> bool {
        call_requires(*self, (family,))
    }

    /// The closure's answer for `family`.
    fn fetch(&self, family: &str) -> (r: Option<Vec<u8>>)
        ensures
            call_ensures(*self, (family,), r),
    {
        self(family)
    }
}

} // verus!
