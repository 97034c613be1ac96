//! Font resolution: typeface name → face.
//!
//! The renderer asks for the face of a family name and the resolvers
//! answer in a fixed order: the host-supplied buffers under the name as
//! written, then under its normalized spelling, then the mapped OSS
//! name, then each entry of the per-platform CJK fallback chain.
//!
//! [`BufferFontResolver`] holds the host-supplied faces. The composed
//! resolvers are described by the exact order in which they query the
//! inner resolver ([`mapped_candidates`], [`cjk_candidates`],
//! [`standard_chain_candidates`]); [`first_some`] walks such an order
//! and stops at the first hit.
use unicode_normalization::UnicodeNormalization;
use vstd::prelude::*;

use crate::cjk_fallback::{get_cjk_fallback_fonts, names_view, unified_chain, CjkPlatform};
use crate::mapping::{
    get_mapped_font, lower_ascii_char, lower_ascii_of, mapped_font, opt_string_view, FontMapping,
};
use crate::strmap::{StrMap, chars_lt, insert_pairs, lemma_sorted_lookup, opt_str_view, string_map_view};
use crate::strs::{push_char, str_to_string};
use crate::text_style::FontStyle;
use crate::wrap::strings_view;

verus! {

/// The NFKC form of `s` (compatibility decomposition followed by
/// canonical composition), as `unicode-normalization` computes it.
pub uninterp spec fn nfkc(s: Seq<char>) -> Seq<char>;

/// Collects `UnicodeNormalization::nfkc` of `s`. The contract claims only
/// that the result is the NFKC form of the text, a function of the text
/// alone.
#[verifier::external_body]
fn nfkc_chars(s: &str) -> (r: Vec<char>)
    ensures
        r@ == nfkc(s@),
{
    s.nfkc().collect()
}

/// Characters a normalized name leaves out: ASCII white space (space,
/// tab, line feed, form feed, carriage return), `-`, `_`, `.` and `+`.
pub open spec fn dropped_in_name(c: char) -> bool {
    c == ' ' || c == '\t' || c == '\n' || c == '\u{0C}' || c == '\r' || c == '-' || c == '_' || c
        == '.' || c == '+'
}

/// Folds the ASCII letters of `s` to lowercase, keeping every other
/// character as it is, and drops the characters a normalized name
/// leaves out.
pub open spec fn fold_name_chars(s: Seq<char>) -> Seq<char>
    decreases s.len(),
{
    if s.len() == 0 {
        Seq::empty()
    } else {
        fold_name_chars(s.drop_last()) + if dropped_in_name(s.last()) {
            Seq::empty()
        } else {
            seq![lower_ascii_char(s.last())]
        }
    }
}

/// The normalized form of a family name: NFKC, then ASCII letters
/// lowercased, with ASCII white space and `-_.+` removed.
pub open spec fn normalized_font_name(s: Seq<char>) -> Seq<char> {
    fold_name_chars(nfkc(s))
}

/// Normalizes a font family name for fuzzy lookup: Unicode NFKC (so
/// full-width Latin folds onto ASCII), then an ASCII case fold, with
/// ASCII white space, hyphens, underscores, dots and plus signs
/// removed. `"Apple SD Gothic Neo"`,
/// `"AppleSDGothicNeo"` and `"apple-sd-gothic-neo"` all normalize alike.
pub fn normalize_font_name(s: &str) -> (r: String)
    ensures
        r@ == normalized_font_name(s@),
{
    let cs = nfkc_chars(s);
    let mut out = String::new();
    let mut i: usize = 0;
    proof {
        assert(cs@.take(0) =~= Seq::<char>::empty());
    }
    while i < cs.len()
        invariant
            i <= cs.len(),
            out@ == fold_name_chars(cs@.take(i as int)),
        decreases cs.len() - i,
    {
        let ch = cs[i];
        let ghost before = out@;
        if !(ch == ' ' || ch == '\t' || ch == '\n' || ch == '\u{0C}' || ch == '\r' || ch == '-' || ch
            == '_' || ch == '.' || ch == '+') {
            push_char(&mut out, lower_ascii_of(ch));
            assert(out@ =~= before + seq![lower_ascii_char(ch)]);
        } else {
            assert(out@ =~= before + Seq::<char>::empty());
        }
        proof {
            assert(cs@.take(i + 1).drop_last() =~= cs@.take(i as int));
            assert(cs@.take(i + 1).last() == ch);
        }
        i = i + 1;
    }
    proof {
        assert(cs@.take(cs@.len() as int) =~= cs@);
    }
    out
}

/// The face a name finds in the host-supplied tables: the name as
/// written among the regular faces, then its normalized form, then the
/// same two lookups among the bold variants (so a family registered only
/// in bold still resolves).
pub open spec fn buffer_lookup<T>(
    regular: Map<Seq<char>, T>,
    regular_normalized: Map<Seq<char>, T>,
    bold: Map<Seq<char>, T>,
    bold_normalized: Map<Seq<char>, T>,
    name: Seq<char>,
) -> Option<T> {
    let key = normalized_font_name(name);
    if regular.dom().contains(name) {
        Some(regular[name])
    } else if regular_normalized.dom().contains(key) {
        Some(regular_normalized[key])
    } else {
        bold_lookup(bold, bold_normalized, name)
    }
}

/// The bold variant a name finds: the name as written, then its
/// normalized form.
pub open spec fn bold_lookup<T>(
    bold: Map<Seq<char>, T>,
    bold_normalized: Map<Seq<char>, T>,
    name: Seq<char>,
) -> Option<T> {
    let key = normalized_font_name(name);
    if bold.dom().contains(name) {
        Some(bold[name])
    } else if bold_normalized.dom().contains(key) {
        Some(bold_normalized[key])
    } else {
        None
    }
}

/// The value behind an optional reference.
pub open spec fn opt_deref<T>(o: Option<&T>) -> Option<T> {
    match o {
        Some(v) => Some(*v),
        None => None,
    }
}

/// Resolver over a curated set of host-supplied faces (embedded deck
/// fonts, user-attached fonts), each registered by family name and also
/// indexed under its [`normalize_font_name`] form. Bold faces live in a
/// slot of their own, since a static Bold face usually shares its family
/// name with the Regular one.
pub struct BufferFontResolver<T> {
    faces: Vec<T>,
    fonts: StrMap<usize>,
    normalized: StrMap<usize>,
    bold_variants: StrMap<usize>,
    bold_normalized: StrMap<usize>,
}

/// Every index the table holds is below `n`.
pub open spec fn indices_below(m: Map<Seq<char>, usize>, n: nat) -> bool {
    forall|k: Seq<char>| #[trigger] m.dom().contains(k) ==> m[k] < n
}

impl<T> BufferFontResolver<T> {
    /// The faces a table's indices point at.
    spec fn faces_of(&self, m: Map<Seq<char>, usize>) -> Map<Seq<char>, T> {
        m.map_values(|i: usize| self.faces@[i as int])
    }

    /// Regular faces by registered name.
    pub closed spec fn regular(&self) -> Map<Seq<char>, T> {
        self.faces_of(self.fonts.as_map())
    }

    /// Regular faces by normalized name (the last registration wins).
    pub closed spec fn regular_normalized(&self) -> Map<Seq<char>, T> {
        self.faces_of(self.normalized.as_map())
    }

    /// Bold variants by registered name.
    pub closed spec fn bold(&self) -> Map<Seq<char>, T> {
        self.faces_of(self.bold_variants.as_map())
    }

    /// Bold variants by normalized name.
    pub closed spec fn bold_normalized(&self) -> Map<Seq<char>, T> {
        self.faces_of(self.bold_normalized.as_map())
    }

    /// Tables are well formed and point at stored faces.
    pub closed spec fn wf(&self) -> bool {
        &&& self.fonts.wf()
        &&& self.normalized.wf()
        &&& self.bold_variants.wf()
        &&& self.bold_normalized.wf()
        &&& indices_below(self.fonts.as_map(), self.faces@.len())
        &&& indices_below(self.normalized.as_map(), self.faces@.len())
        &&& indices_below(self.bold_variants.as_map(), self.faces@.len())
        &&& indices_below(self.bold_normalized.as_map(), self.faces@.len())
    }

    /// The face `resolve` finds for `name`.
    pub open spec fn lookup(&self, name: Seq<char>) -> Option<T> {
        buffer_lookup(self.regular(), self.regular_normalized(), self.bold(), self.bold_normalized(), name)
    }

    /// An empty resolver.
    pub fn new() -> (r: Self)
        ensures
            r.wf(),
            r.regular() == Map::<Seq<char>, T>::empty(),
            r.regular_normalized() == Map::<Seq<char>, T>::empty(),
            r.bold() == Map::<Seq<char>, T>::empty(),
            r.bold_normalized() == Map::<Seq<char>, T>::empty(),
    {
        let r = BufferFontResolver {
            faces: Vec::new(),
            fonts: StrMap::new(),
            normalized: StrMap::new(),
            bold_variants: StrMap::new(),
            bold_normalized: StrMap::new(),
        };
        proof {
            assert(r.regular() =~= Map::<Seq<char>, T>::empty());
            assert(r.regular_normalized() =~= Map::<Seq<char>, T>::empty());
            assert(r.bold() =~= Map::<Seq<char>, T>::empty());
            assert(r.bold_normalized() =~= Map::<Seq<char>, T>::empty());
        }
        r
    }

    /// Stores `face` and returns its index; the tables are unchanged.
    fn push_face(&mut self, face: T) -> (r: usize)
        requires
            old(self).wf(),
        ensures
            final(self).wf(),
            r == old(self).faces@.len(),
            final(self).faces@ == old(self).faces@.push(face),
            final(self).fonts == old(self).fonts,
            final(self).normalized == old(self).normalized,
            final(self).bold_variants == old(self).bold_variants,
            final(self).bold_normalized == old(self).bold_normalized,
            final(self).regular() == old(self).regular(),
            final(self).regular_normalized() == old(self).regular_normalized(),
            final(self).bold() == old(self).bold(),
            final(self).bold_normalized() == old(self).bold_normalized(),
    {
        let r = self.faces.len();
        self.faces.push(face);
        proof {
            assert(self.regular() =~= old(self).regular());
            assert(self.regular_normalized() =~= old(self).regular_normalized());
            assert(self.bold() =~= old(self).bold());
            assert(self.bold_normalized() =~= old(self).bold_normalized());
        }
        r
    }

    /// Registers `face` under `name` (and under its normalized form); a
    /// later registration of the same name replaces it. The bold slot is
    /// untouched.
    pub fn insert(&mut self, name: String, face: T)
        requires
            old(self).wf(),
        ensures
            final(self).wf(),
            final(self).regular() == old(self).regular().insert(name@, face),
            final(self).regular_normalized() == old(self).regular_normalized().insert(
                normalized_font_name(name@),
                face,
            ),
            final(self).bold() == old(self).bold(),
            final(self).bold_normalized() == old(self).bold_normalized(),
    {
        let key = normalize_font_name(name.as_str());
        let idx = self.push_face(face);
        self.normalized.insert(key, idx);
        self.fonts.insert(name, idx);
        proof {
            let n = self.faces@.len();
            assert(indices_below(self.fonts.as_map(), n));
            assert(indices_below(self.normalized.as_map(), n));
            assert(self.regular() =~= old(self).regular().insert(name@, face));
            assert(self.regular_normalized() =~= old(self).regular_normalized().insert(
                normalized_font_name(name@),
                face,
            ));
            assert(self.bold() =~= old(self).bold());
            assert(self.bold_normalized() =~= old(self).bold_normalized());
        }
    }

    /// Registers `face` as the bold variant for `name` (and its
    /// normalized form). The regular slot is untouched.
    pub fn insert_bold_variant(&mut self, name: String, face: T)
        requires
            old(self).wf(),
        ensures
            final(self).wf(),
            final(self).bold() == old(self).bold().insert(name@, face),
            final(self).bold_normalized() == old(self).bold_normalized().insert(
                normalized_font_name(name@),
                face,
            ),
            final(self).regular() == old(self).regular(),
            final(self).regular_normalized() == old(self).regular_normalized(),
    {
        let key = normalize_font_name(name.as_str());
        let idx = self.push_face(face);
        self.bold_normalized.insert(key, idx);
        self.bold_variants.insert(name, idx);
        proof {
            let n = self.faces@.len();
            assert(indices_below(self.bold_variants.as_map(), n));
            assert(indices_below(self.bold_normalized.as_map(), n));
            assert(self.bold() =~= old(self).bold().insert(name@, face));
            assert(self.bold_normalized() =~= old(self).bold_normalized().insert(
                normalized_font_name(name@),
                face,
            ));
            assert(self.regular() =~= old(self).regular());
            assert(self.regular_normalized() =~= old(self).regular_normalized());
        }
    }

    /// Number of registered regular names.
    pub fn len(&self) -> (r: usize)
        requires
            self.wf(),
        ensures
            r == self.regular().dom().len(),
    {
        proof {
            self.fonts.lemma_len();
            assert(self.regular().dom() =~= self.fonts.as_map().dom());
        }
        self.fonts.len()
    }

    /// Whether no regular face is registered.
    pub fn is_empty(&self) -> (r: bool)
        requires
            self.wf(),
        ensures
            r == (self.regular().dom().len() == 0),
    {
        self.len() == 0
    }

    /// Looks up the face stored at the index a table gives for `key`.
    fn face_at(&self, table: &StrMap<usize>, key: &str) -> (r: Option<&T>)
        requires
            self.wf(),
            table.wf(),
            indices_below(table.as_map(), self.faces@.len()),
        ensures
            opt_deref(r) == (if self.faces_of(table.as_map()).dom().contains(key@) {
                Some(self.faces_of(table.as_map())[key@])
            } else {
                None
            }),
    {
        match table.get(key) {
            Some(i) => Some(&self.faces[*i]),
            None => None,
        }
    }

    /// The face for `name`: the name as written, then its normalized
    /// form, then the same among the bold variants.
    pub fn resolve(&self, name: &str) -> (r: Option<&T>)
        requires
            self.wf(),
        ensures
            opt_deref(r) == self.lookup(name@),
    {
        let hit = self.face_at(&self.fonts, name);
        if hit.is_some() {
            return hit;
        }
        let key = normalize_font_name(name);
        let hit = self.face_at(&self.normalized, key.as_str());
        if hit.is_some() {
            return hit;
        }
        let hit = self.face_at(&self.bold_variants, name);
        if hit.is_some() {
            return hit;
        }
        self.face_at(&self.bold_normalized, key.as_str())
    }

    /// The bold variant for `name` when `style` asks for bold; `None`
    /// otherwise (italic alone has no slot, and callers fall back to the
    /// regular face with synthetic styling).
    pub fn resolve_variant(&self, name: &str, style: FontStyle) -> (r: Option<&T>)
        requires
            self.wf(),
        ensures
            opt_deref(r) == (if style.bold {
                bold_lookup(self.bold(), self.bold_normalized(), name@)
            } else {
                None
            }),
    {
        if !style.bold {
            return None;
        }
        let hit = self.face_at(&self.bold_variants, name);
        if hit.is_some() {
            return hit;
        }
        let key = normalize_font_name(name);
        self.face_at(&self.bold_normalized, key.as_str())
    }
}

/// `m` with the pairs of `s` inserted in order under their normalized
/// names, later pairs winning.
pub open spec fn insert_normalized<T>(m: Map<Seq<char>, T>, s: Seq<(String, T)>) -> Map<Seq<char>, T>
    decreases s.len(),
{
    if s.len() == 0 {
        m
    } else {
        insert_normalized(m, s.drop_last()).insert(normalized_font_name(s.last().0@), s.last().1)
    }
}

impl<T> BufferFontResolver<T> {
    /// A resolver holding `entries`, registered in order (a later entry
    /// with the same name replaces an earlier one).
    pub fn from_entries(entries: Vec<(String, T)>) -> (r: Self)
        ensures
            r.wf(),
            r.regular() == insert_pairs(Map::empty(), entries@),
            r.regular_normalized() == insert_normalized(Map::empty(), entries@),
            r.bold() == Map::<Seq<char>, T>::empty(),
            r.bold_normalized() == Map::<Seq<char>, T>::empty(),
    {
        let ghost es = entries@;
        let total = entries.len();
        let mut r = Self::new();
        let mut rest = entries;
        let mut i: usize = 0;
        proof {
            assert(es.take(0) =~= Seq::<(String, T)>::empty());
        }
        while rest.len() > 0
            invariant
                i + rest@.len() == es.len(),
                es.len() == total,
                rest@ == es.subrange(i as int, es.len() as int),
                r.wf(),
                r.regular() == insert_pairs(Map::empty(), es.take(i as int)),
                r.regular_normalized() == insert_normalized(Map::empty(), es.take(i as int)),
                r.bold() == Map::<Seq<char>, T>::empty(),
                r.bold_normalized() == Map::<Seq<char>, T>::empty(),
            decreases rest@.len(),
        {
            let (name, face) = rest.remove(0);
            assert(rest@ =~= es.subrange(i + 1, es.len() as int));
            proof {
                assert(es.take(i + 1).drop_last() =~= es.take(i as int));
                assert(es.take(i + 1).last() == es[i as int]);
            }
            r.insert(name, face);
            i = i + 1;
        }
        proof {
            assert(es.take(i as int) =~= es);
        }
        r
    }

    /// The registered regular names with their faces, in ascending name
    /// order.
    pub fn iter(&self) -> (r: Vec<(&String, &T)>)
        requires
            self.wf(),
        ensures
            r@.len() == self.regular().dom().len(),
            forall|i: int|
                0 <= i < r@.len() ==> self.regular().dom().contains((#[trigger] r@[i]).0@) && *r@[i].1
                    == self.regular()[r@[i].0@],
            forall|i: int, j: int|
                0 <= i < j < r@.len() ==> chars_lt((#[trigger] r@[i]).0@, (#[trigger] r@[j]).0@),
    {
        let n = self.fonts.len();
        let mut out: Vec<(&String, &T)> = Vec::new();
        let mut i: usize = 0;
        proof {
            self.fonts.lemma_sorted();
            self.fonts.lemma_len();
        }
        while i < n
            invariant
                i <= n,
                self.wf(),
                n == self.fonts.entries_view().len(),
                out@.len() == i,
                forall|k: int|
                    0 <= k < i ==> (#[trigger] out@[k]).0@ == self.fonts.entries_view()[k].0
                        && self.regular().dom().contains(out@[k].0@) && *out@[k].1
                        == self.regular()[out@[k].0@],
            decreases n - i,
        {
            let (name, idx) = self.fonts.entry_at(i);
            proof {
                self.fonts.lemma_sorted();
                lemma_sorted_lookup(self.fonts.entries_view(), i as int);
            }
            out.push((name, &self.faces[*idx]));
            i = i + 1;
        }
        proof {
            self.fonts.lemma_sorted();
            assert(self.regular().dom() =~= self.fonts.as_map().dom());
            let ev = self.fonts.entries_view();
            assert forall|a: int, b: int| 0 <= a < b < out@.len() implies chars_lt(
                (#[trigger] out@[a]).0@,
                (#[trigger] out@[b]).0@,
            ) by {
                assert(chars_lt(ev[a].0, ev[b].0));
            }
        }
        out
    }
}

impl<T> Default for BufferFontResolver<T> {
    /// An empty resolver.
    fn default() -> (r: Self)
        ensures
            r.wf(),
            r.regular() == Map::<Seq<char>, T>::empty(),
            r.regular_normalized() == Map::<Seq<char>, T>::empty(),
            r.bold() == Map::<Seq<char>, T>::empty(),
            r.bold_normalized() == Map::<Seq<char>, T>::empty(),
    {
        Self::new()
    }
}

/// A face registered under a name is what that name resolves to, and
/// the registration overrides any earlier face of that name.
pub proof fn law_resolve_after_insert<T>(
    regular: Map<Seq<char>, T>,
    regular_normalized: Map<Seq<char>, T>,
    bold: Map<Seq<char>, T>,
    bold_normalized: Map<Seq<char>, T>,
    name: Seq<char>,
    face: T,
)
    ensures
        buffer_lookup(
            regular.insert(name, face),
            regular_normalized.insert(normalized_font_name(name), face),
            bold,
            bold_normalized,
            name,
        ) == Some(face),
{
}

/// Any spelling with the same normalized form as a registered name finds
/// that name's face, unless the spelling is itself registered as written.
pub proof fn law_normalized_spelling_resolves<T>(
    regular: Map<Seq<char>, T>,
    regular_normalized: Map<Seq<char>, T>,
    bold: Map<Seq<char>, T>,
    bold_normalized: Map<Seq<char>, T>,
    name: Seq<char>,
    spelling: Seq<char>,
    face: T,
)
    requires
        normalized_font_name(spelling) == normalized_font_name(name),
        !regular.insert(name, face).dom().contains(spelling),
    ensures
        buffer_lookup(
            regular.insert(name, face),
            regular_normalized.insert(normalized_font_name(name), face),
            bold,
            bold_normalized,
            spelling,
        ) == Some(face),
{
}

/// Registering a bold variant never changes what a regular face
/// resolves to: a name with a regular face keeps it.
pub proof fn law_bold_variant_keeps_regular<T>(
    regular: Map<Seq<char>, T>,
    regular_normalized: Map<Seq<char>, T>,
    bold: Map<Seq<char>, T>,
    bold_normalized: Map<Seq<char>, T>,
    bold_name: Seq<char>,
    bold_face: T,
    name: Seq<char>,
)
    requires
        regular.dom().contains(name) || regular_normalized.dom().contains(normalized_font_name(name)),
    ensures
        buffer_lookup(
            regular,
            regular_normalized,
            bold.insert(bold_name, bold_face),
            bold_normalized.insert(normalized_font_name(bold_name), bold_face),
            name,
        ) == buffer_lookup(regular, regular_normalized, bold, bold_normalized, name),
{
}

/// The names the mapping resolver asks its inner resolver for, in
/// order: the name as written, then its mapped OSS name when the mapping
/// has one.
pub open spec fn mapped_order(name: Seq<char>, m: Map<Seq<char>, Seq<char>>) -> Seq<Seq<char>> {
    match mapped_font(name, m) {
        Some(target) => seq![name, target],
        None => seq![name],
    }
}

/// The names the CJK fallback resolver asks its inner resolver for, in
/// order: the name as written, then each entry of the fallback chain.
pub open spec fn cjk_order(name: Seq<char>) -> Seq<Seq<char>> {
    seq![name] + unified_chain(name)
}

/// The names the standard chain (CJK fallback over mapping over the
/// host buffers) asks the buffers for: each name of [`cjk_order`],
/// followed by its mapped OSS name when there is one.
pub open spec fn standard_order(name: Seq<char>, m: Map<Seq<char>, Seq<char>>) -> Seq<Seq<char>> {
    cjk_order(name).map_values(|q: Seq<char>| mapped_order(q, m)).flatten()
}

/// The lookups a [`FontMapping`]-applying resolver makes for `name`: the
/// name itself, then the mapping's target for it, if any.
pub fn mapped_candidates(name: &str, mapping: &FontMapping) -> (r: Vec<String>)
    requires
        mapping.wf(),
    ensures
        strings_view(r@) == mapped_order(name@, string_map_view(mapping.as_map())),
{
    let mut out: Vec<String> = Vec::new();
    out.push(str_to_string(name));
    match get_mapped_font(name, mapping) {
        Some(target) => {
            out.push(target);
        },
        None => {},
    }
    assert(strings_view(out@) =~= mapped_order(name@, string_map_view(mapping.as_map())));
    out
}

/// The lookups the CJK fallback resolver makes for `name`: the name
/// itself, then each fallback of the unified chain in order.
pub fn cjk_candidates(platform: CjkPlatform, name: &str) -> (r: Vec<String>)
    ensures
        strings_view(r@) == cjk_order(name@),
{
    let chain = get_cjk_fallback_fonts(platform, name);
    let mut out: Vec<String> = Vec::new();
    out.push(str_to_string(name));
    let mut i: usize = 0;
    while i < chain.len()
        invariant
            i <= chain.len(),
            names_view(chain@) == unified_chain(name@),
            strings_view(out@) == seq![name@] + names_view(chain@).take(i as int),
        decreases chain.len() - i,
    {
        let ghost before = strings_view(out@);
        let item = str_to_string(chain[i]);
        out.push(item);
        proof {
            assert(strings_view(out@) =~= before.push(chain@[i as int]@));
            assert(names_view(chain@)[i as int] == chain@[i as int]@);
            assert(names_view(chain@).take(i + 1) =~= names_view(chain@).take(i as int).push(
                chain@[i as int]@,
            ));
        }
        i = i + 1;
        assert(strings_view(out@) =~= seq![name@] + names_view(chain@).take(i as int));
    }
    assert(names_view(chain@).take(i as int) =~= names_view(chain@));
    out
}

/// The lookups the standard resolver chain makes for `name`: for each
/// name of [`cjk_candidates`], that name and then its mapped OSS name.
pub fn standard_chain_candidates(name: &str, mapping: &FontMapping, platform: CjkPlatform) -> (r: Vec<
    String,
>)
    requires
        mapping.wf(),
    ensures
        strings_view(r@) == standard_order(name@, string_map_view(mapping.as_map())),
{
    let ghost m = string_map_view(mapping.as_map());
    let ghost groups = cjk_order(name@).map_values(|q: Seq<char>| mapped_order(q, m));
    let names = cjk_candidates(platform, name);
    let mut out: Vec<String> = Vec::new();
    let mut i: usize = 0;
    proof {
        assert(groups.take(0) =~= Seq::<Seq<Seq<char>>>::empty());
        assert(strings_view(out@) =~= groups.take(0).flatten_alt());
    }
    while i < names.len()
        invariant
            i <= names.len(),
            mapping.wf(),
            m == string_map_view(mapping.as_map()),
            strings_view(names@) == cjk_order(name@),
            groups == cjk_order(name@).map_values(|q: Seq<char>| mapped_order(q, m)),
            strings_view(out@) == groups.take(i as int).flatten_alt(),
        decreases names.len() - i,
    {
        let group = mapped_candidates(names[i].as_str(), mapping);
        let ghost before = strings_view(out@);
        let mut j: usize = 0;
        while j < group.len()
            invariant
                j <= group.len(),
                strings_view(out@) == before + strings_view(group@).take(j as int),
            decreases group.len() - j,
        {
            let item = group[j].clone();
            out.push(item);
            proof {
                assert(strings_view(out@) =~= before + strings_view(group@).take(j as int) + seq![
                    group@[j as int]@,
                ]);
            }
            j = j + 1;
            assert(strings_view(out@) =~= before + strings_view(group@).take(j as int));
        }
        proof {
            assert(strings_view(group@).take(j as int) =~= strings_view(group@));
            assert(strings_view(names@)[i as int] == names@[i as int]@);
            assert(groups[i as int] == mapped_order(names@[i as int]@, m));
            assert(groups.take(i + 1).drop_last() =~= groups.take(i as int));
            assert(groups.take(i + 1).last() == groups[i as int]);
        }
        i = i + 1;
    }
    proof {
        assert(groups.take(i as int) =~= groups);
        groups.lemma_flatten_and_flatten_alt_are_equivalent();
    }
    out
}

/// The names the text measurer's chain (mapping over CJK fallback over
/// the host buffers) asks the buffers for: the CJK order of the name,
/// then the CJK order of its mapped OSS name when there is one.
pub open spec fn measurer_order(name: Seq<char>, m: Map<Seq<char>, Seq<char>>) -> Seq<Seq<char>> {
    mapped_order(name, m).map_values(|q: Seq<char>| cjk_order(q)).flatten()
}

/// The lookups the text measurer's resolver chain makes for `name`: for
/// each name of [`mapped_candidates`], that name and then its CJK
/// fallbacks.
pub fn measurer_candidates(name: &str, mapping: &FontMapping, platform: CjkPlatform) -> (r: Vec<
    String,
>)
    requires
        mapping.wf(),
    ensures
        strings_view(r@) == measurer_order(name@, string_map_view(mapping.as_map())),
{
    let ghost m = string_map_view(mapping.as_map());
    let ghost groups = mapped_order(name@, m).map_values(|q: Seq<char>| cjk_order(q));
    let names = mapped_candidates(name, mapping);
    let mut out: Vec<String> = Vec::new();
    let mut i: usize = 0;
    proof {
        assert(groups.take(0) =~= Seq::<Seq<Seq<char>>>::empty());
        assert(strings_view(out@) =~= groups.take(0).flatten_alt());
    }
    while i < names.len()
        invariant
            i <= names.len(),
            strings_view(names@) == mapped_order(name@, m),
            groups == mapped_order(name@, m).map_values(|q: Seq<char>| cjk_order(q)),
            strings_view(out@) == groups.take(i as int).flatten_alt(),
        decreases names.len() - i,
    {
        let group = cjk_candidates(platform, names[i].as_str());
        let ghost before = strings_view(out@);
        let mut j: usize = 0;
        while j < group.len()
            invariant
                j <= group.len(),
                strings_view(out@) == before + strings_view(group@).take(j as int),
            decreases group.len() - j,
        {
            let item = group[j].clone();
            out.push(item);
            proof {
                assert(strings_view(out@) =~= before + strings_view(group@).take(j as int) + seq![
                    group@[j as int]@,
                ]);
            }
            j = j + 1;
        }
        proof {
            assert(strings_view(group@).take(j as int) =~= strings_view(group@));
            assert(strings_view(names@)[i as int] == names@[i as int]@);
            assert(groups[i as int] == cjk_order(names@[i as int]@));
            assert(groups.take(i + 1).drop_last() =~= groups.take(i as int));
            assert(groups.take(i + 1).last() == groups[i as int]);
        }
        i = i + 1;
    }
    proof {
        assert(groups.take(i as int) =~= groups);
        groups.lemma_flatten_and_flatten_alt_are_equivalent();
    }
    out
}

/// Asks `f` about each item in turn and returns the first `Some` it
/// gives: the lookup of a resolver chain, where the first resolver (or
/// the first candidate name) to find a face wins.
pub fn first_some<A, T, F: Fn(&A) -> Option<T>>(items: &Vec<A>, f: &F) -> (r: Option<T>)
    requires
        forall|i: int| 0 <= i < items@.len() ==> f.requires((&items@[i],)),
    ensures
        r is Some ==> exists|i: int|
            0 <= i < items@.len() && f.ensures((&items@[i],), r) && forall|j: int|
                0 <= j < i ==> f.ensures((&items@[j],), None::<T>),
        r is None ==> forall|i: int| 0 <= i < items@.len() ==> f.ensures((&items@[i],), None::<T>),
{
    let mut i: usize = 0;
    while i < items.len()
        invariant
            i <= items@.len(),
            forall|k: int| 0 <= k < items@.len() ==> f.requires((&items@[k],)),
            forall|j: int| 0 <= j < i ==> f.ensures((&items@[j],), None::<T>),
        decreases items@.len() - i,
    {
        let found = f(&items[i]);
        if found.is_some() {
            return found;
        }
        i = i + 1;
    }
    None
}

/// OS/2 weight from which a supplied face counts as bold.
pub const BOLD_WEIGHT_CUTOFF: u16 = 600;

/// Where a supplied face goes: under the caller's name when it is given
/// and non-empty, else under the face's own family name (a face with
/// neither is skipped), in the bold slot when its weight is at least
/// [`BOLD_WEIGHT_CUTOFF`].
pub open spec fn registration_of(
    override_name: Option<Seq<char>>,
    family_name: Option<Seq<char>>,
    weight: u16,
) -> Option<(Seq<char>, bool)> {
    let key = match override_name {
        Some(o) => if o.len() > 0 {
            Some(o)
        } else {
            family_name
        },
        None => family_name,
    };
    match key {
        Some(k) => Some((k, weight >= BOLD_WEIGHT_CUTOFF)),
        None => None,
    }
}

/// The name a supplied face is registered under and whether it goes to
/// the bold slot (see [`registration_of`]).
pub fn face_registration(override_name: Option<&str>, family_name: Option<String>, weight: u16) -> (r:
    Option<(String, bool)>)
    ensures
        match r {
            Some((key, bold)) => registration_of(
                opt_str_view(override_name),
                opt_string_view(family_name),
                weight,
            ) == Some((key@, bold)),
            None => registration_of(opt_str_view(override_name), opt_string_view(family_name), weight)
                is None,
        },
{
    let key = match override_name {
        Some(o) => if !o.is_empty() {
            Some(str_to_string(o))
        } else {
            family_name
        },
        None => family_name,
    };
    match key {
        Some(k) => Some((k, weight >= BOLD_WEIGHT_CUTOFF)),
        None => None,
    }
}

} // verus!
