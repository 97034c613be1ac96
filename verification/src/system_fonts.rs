//! Which installed faces a request for some families asks for.
//!
//! The scan of the host's fonts and the reading of font files happen
//! outside the library; the choice of the faces to keep is made here
//! over the plain names the scan reports.
use vstd::prelude::*;

use crate::opentype::{trim_chars, trim_str};
use crate::strs::str_chars;
use crate::wrap::strings_view;

verus! {

/// The Unicode lowercase form of a text, as `str::to_lowercase`
/// computes it.
pub uninterp spec fn text_lowercase(s: Seq<char>) -> Seq<char>;

/// `str::to_lowercase`. The contract claims only that the result is the
/// lowercase form of the text, a function of the text alone.
#[verifier::external_body]
fn lowercase_text(s: &str) -> (r: String)
    ensures
        r@ == text_lowercase(s@),
{
    s.to_lowercase()
}

/// The form in which a requested family is compared: trimmed, then
/// lowercased.
pub open spec fn needle_of(family: Seq<char>) -> Seq<char> {
    text_lowercase(trim_chars(family))
}

/// The needles of the requested families, in order, without empty ones.
pub open spec fn needles_of(families: Seq<Seq<char>>) -> Seq<Seq<char>>
    decreases families.len(),
{
    if families.len() == 0 {
        Seq::empty()
    } else {
        let acc = needles_of(families.drop_last());
        let n = needle_of(families.last());
        if n.len() == 0 {
            acc
        } else {
            acc.push(n)
        }
    }
}

/// The characters of each borrowed string.
pub open spec fn strs_view(v: Seq<&str>) -> Seq<Seq<char>> {
    v.map_values(|s: &str| s@)
}

/// The comparison forms of the requested families: each trimmed and
/// lowercased, empty ones dropped.
pub fn family_needles(families: &[&str]) -> (r: Vec<String>)
    ensures
        strings_view(r@) == needles_of(strs_view(families@)),
{
    let ghost fv = strs_view(families@);
    let mut out: Vec<String> = Vec::new();
    let mut i: usize = 0;
    proof {
        assert(fv.take(0) =~= Seq::<Seq<char>>::empty());
        assert(strings_view(out@) =~= Seq::<Seq<char>>::empty());
    }
    while i < families.len()
        invariant
            i <= families@.len(),
            fv == strs_view(families@),
            strings_view(out@) == needles_of(fv.take(i as int)),
        decreases families@.len() - i,
    {
        proof {
            assert(fv.take(i + 1).drop_last() =~= fv.take(i as int));
            assert(fv.take(i + 1).last() == families@[i as int]@);
        }
        let trimmed = trim_str(families[i]);
        let needle = lowercase_text(trimmed.as_str());
        if !needle.as_str().is_empty() {
            let ghost before = strings_view(out@);
            out.push(needle);
            assert(strings_view(out@) =~= before.push(needle_of(families@[i as int]@)));
        }
        i = i + 1;
    }
    proof {
        assert(fv.take(i as int) =~= fv);
    }
    out
}

/// The part of `s` before its first `-` (all of it when it has none).
pub open spec fn dash_head(s: Seq<char>) -> Seq<char>
    decreases s.len(),
{
    if s.len() == 0 {
        s
    } else if s[0] == '-' {
        Seq::empty()
    } else {
        seq![s[0]] + dash_head(s.drop_first())
    }
}

/// A face is wanted when one of its family names, lowercased, is a
/// needle, or when the lowercased PostScript name up to its first `-`
/// is one.
pub open spec fn face_wanted(needles: Seq<Seq<char>>, families: Seq<Seq<char>>, post_script: Seq<
    char,
>) -> bool {
    (exists|i: int| 0 <= i < families.len() && needles.contains(text_lowercase(#[trigger] families[i])))
        || needles.contains(dash_head(text_lowercase(post_script)))
}

/// Whether `v` holds `s`.
fn holds(v: &Vec<String>, s: &str) -> (r: bool)
    ensures
        r == strings_view(v@).contains(s@),
{
    let mut i: usize = 0;
    while i < v.len()
        invariant
            i <= v@.len(),
            forall|j: int| 0 <= j < i ==> v@[j]@ != s@,
        decreases v@.len() - i,
    {
        if crate::strs::str_eq(v[i].as_str(), s) {
            assert(strings_view(v@)[i as int] == s@);
            return true;
        }
        i = i + 1;
    }
    proof {
        if strings_view(v@).contains(s@) {
            let j = choose|j: int| 0 <= j < strings_view(v@).len() && strings_view(v@)[j] == s@;
            assert(v@[j]@ == s@);
        }
    }
    false
}

/// The characters of `cs` before the first `-`.
fn head_before_dash(cs: &Vec<char>) -> (r: Vec<char>)
    ensures
        r@ == dash_head(cs@),
{
    let mut end: usize = 0;
    while end < cs.len() && cs[end] != '-'
        invariant
            end <= cs@.len(),
            forall|j: int| 0 <= j < end ==> cs@[j] != '-',
        decreases cs@.len() - end,
    {
        end = end + 1;
    }
    let mut out: Vec<char> = Vec::new();
    let mut i: usize = 0;
    while i < end
        invariant
            i <= end <= cs@.len(),
            out@ == cs@.subrange(0, i as int),
        decreases end - i,
    {
        out.push(cs[i]);
        i = i + 1;
        assert(out@ =~= cs@.subrange(0, i as int));
    }
    proof {
        lemma_dash_head_prefix(cs@, end as int);
    }
    out
}

proof fn lemma_dash_head_prefix(s: Seq<char>, end: int)
    requires
        0 <= end <= s.len(),
        forall|j: int| 0 <= j < end ==> s[j] != '-',
        end == s.len() || s[end] == '-',
    ensures
        dash_head(s) == s.subrange(0, end),
    decreases s.len(),
{
    if s.len() == 0 {
        assert(s.subrange(0, end) =~= s);
    } else if end == 0 {
        assert(s.subrange(0, 0) =~= Seq::<char>::empty());
    } else {
        lemma_dash_head_prefix(s.drop_first(), end - 1);
        assert(s.subrange(0, end) =~= seq![s[0]] + s.drop_first().subrange(0, end - 1));
    }
}

/// Whether an installed face, known by its family names and PostScript
/// name, is one the needles ask for.
pub fn face_matches(needles: &Vec<String>, families: &Vec<String>, post_script_name: &str) -> (r:
    bool)
    ensures
        r == face_wanted(strings_view(needles@), strings_view(families@), post_script_name@),
{
    let mut i: usize = 0;
    while i < families.len()
        invariant
            i <= families@.len(),
            forall|j: int|
                0 <= j < i ==> !strings_view(needles@).contains(
                    text_lowercase(#[trigger] strings_view(families@)[j]),
                ),
        decreases families@.len() - i,
    {
        let lowered = lowercase_text(families[i].as_str());
        if holds(needles, lowered.as_str()) {
            assert(strings_view(families@)[i as int] == families@[i as int]@);
            return true;
        }
        assert(strings_view(families@)[i as int] == families@[i as int]@);
        i = i + 1;
    }
    let lowered = lowercase_text(post_script_name);
    let cs = str_chars(lowered.as_str());
    let head = head_before_dash(&cs);
    let head_text = crate::strs::string_from_chars(&head);
    holds(needles, head_text.as_str())
}

} // verus!
