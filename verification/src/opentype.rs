//! Family names from a font's `name` table.
//!
//! `ttf-parser` reads the table; the choice of which record names the
//! family, and the list of every family-bearing label a face answers
//! to, are made here over plain copies of the records.
use vstd::prelude::*;

use crate::bytes::{read_u32, u32_be};
use crate::cjk_fallback::{append_unseen, law_append_unseen};
use crate::strs::{str_chars, str_eq, string_from_chars};
use crate::ttc::{is_ttc, ttc_tag_at_start};
use crate::wrap::{is_white_space, strings_view, trim_end_chars, white_space};

verus! {

/// One record of a face's `name` table, as plain values.
pub struct NameRecord {
    /// The name ID (1 family, 4 full name, 6 PostScript name, 16
    /// typographic family, 21 WWS family, ...).
    pub name_id: u16,
    /// The platform ID: 0 Unicode, 1 Macintosh, 2 ISO, 3 Windows, 4
    /// custom.
    pub platform_id: u16,
    /// The language ID (0x0409 is Windows US English, 0 Macintosh
    /// English).
    pub language_id: u16,
    /// The decoded text, when the record's encoding is one `ttf-parser`
    /// decodes.
    pub text: Option<String>,
}

/// A record by view: name, platform and language IDs and the decoded
/// text.
pub type NameRecordView = (u16, u16, u16, Option<Seq<char>>);

/// The view of a record.
pub open spec fn record_view(r: NameRecord) -> NameRecordView {
    (
        r.name_id,
        r.platform_id,
        r.language_id,
        match r.text {
            Some(t) => Some(t@),
            None => None,
        },
    )
}

/// The views of the records; a record the table lists but whose text
/// lies outside the table is `None`.
pub open spec fn records_view(rs: Seq<Option<NameRecord>>) -> Seq<Option<NameRecordView>> {
    rs.map_values(
        |o: Option<NameRecord>|
            match o {
                Some(r) => Some(record_view(r)),
                None => None,
            },
    )
}

/// The `name` table records of face `face_index` of `data` in table
/// order, as `ttf-parser` reads them; `None` when the face does not
/// parse.
pub uninterp spec fn face_name_records(data: Seq<u8>, face_index: u32) -> Option<
    Seq<Option<(u16, u16, u16, Option<Seq<char>>)>>,
>;

/// Parses face `face_index` of `data` with `ttf_parser::Face::parse` and
/// copies each `name` record (`Names::get`, `Name::to_string`). The
/// contract claims only that the result is a function of the bytes and
/// the index.
#[verifier::external_body]
fn name_records(data: &[u8], face_index: u32) -> (r: Option<Vec<Option<NameRecord>>>)
    ensures
        match r {
            Some(rs) => face_name_records(data@, face_index) == Some(records_view(rs@)),
            None => face_name_records(data@, face_index) is None,
        },
{
    let face = ttf_parser::Face::parse(data, face_index).ok()?;
    let names = face.names();
    Some((0..names.len()).map(|i| names.get(i).map(|rec| NameRecord {
        name_id: rec.name_id,
        platform_id: match rec.platform_id {
            ttf_parser::PlatformId::Unicode => 0,
            ttf_parser::PlatformId::Macintosh => 1,
            ttf_parser::PlatformId::Iso => 2,
            ttf_parser::PlatformId::Windows => 3,
            ttf_parser::PlatformId::Custom => 4,
        },
        language_id: rec.language_id,
        text: rec.to_string(),
    })).collect())
}

/// The face count a collection header declares: the big-endian word at
/// offset 8 when `data` starts with the `ttcf` tag and holds 12 bytes.
pub open spec fn collection_count(data: Seq<u8>) -> Option<u32> {
    if ttc_tag_at_start(data) && data.len() >= 12 {
        Some(u32_be(data, 8) as u32)
    } else {
        None
    }
}

/// The face count of a font collection: `None` unless `data` starts
/// with the `ttcf` tag; then the big-endian word after the version.
fn fonts_in_collection(data: &[u8]) -> (r: Option<u32>)
    ensures
        r == collection_count(data@),
{
    if !is_ttc(data) {
        return None;
    }
    read_u32(data, 8)
}

/// How strongly a record names the family: the typographic family (16)
/// beats the plain family (1), and within each Windows US English beats
/// Macintosh English beats any other. Zero for other records.
pub open spec fn family_score(name_id: u16, platform_id: u16, language_id: u16) -> u8 {
    if name_id == 16 {
        if platform_id == 3 && language_id == 0x0409 {
            8
        } else if platform_id == 1 && language_id == 0 {
            7
        } else {
            6
        }
    } else if name_id == 1 {
        if platform_id == 3 && language_id == 0x0409 {
            4
        } else if platform_id == 1 && language_id == 0 {
            3
        } else {
            2
        }
    } else {
        0
    }
}

/// The best-scoring family record among `rs` with its score; the first
/// one wins a tie. Records without decoded text do not count.
pub open spec fn best_family(rs: Seq<Option<NameRecordView>>) -> Option<(u8, Seq<char>)>
    decreases rs.len(),
{
    if rs.len() == 0 {
        None
    } else {
        let best = best_family(rs.drop_last());
        match rs.last() {
            Some((id, platform, language, Some(text))) => {
                let score = family_score(id, platform, language);
                if (id == 16 || id == 1) && match best {
                    Some((cur, _)) => cur < score,
                    None => true,
                } {
                    Some((score, text))
                } else {
                    best
                }
            },
            _ => best,
        }
    }
}

/// The family name the best record gives.
pub open spec fn family_name_of(rs: Seq<Option<NameRecordView>>) -> Option<Seq<char>> {
    match best_family(rs) {
        Some((_, text)) => Some(text),
        None => None,
    }
}

/// The characters of an optional `String`.
pub open spec fn opt_text(o: Option<String>) -> Option<Seq<char>> {
    match o {
        Some(s) => Some(s@),
        None => None,
    }
}

/// Picks the family name from a face's `name` records: the typographic
/// family (ID 16) over the plain family (ID 1), Windows US English over
/// Macintosh English over any other language, the first record winning
/// a tie.
pub fn family_name_from_records(records: &Vec<Option<NameRecord>>) -> (r: Option<String>)
    ensures
        opt_text(r) == family_name_of(records_view(records@)),
{
    let ghost rv = records_view(records@);
    let mut best_score: u8 = 0;
    let mut best: Option<&String> = None;
    let mut i: usize = 0;
    proof {
        assert(rv.take(0) =~= Seq::<Option<NameRecordView>>::empty());
    }
    while i < records.len()
        invariant
            i <= records@.len(),
            rv == records_view(records@),
            match best_family(rv.take(i as int)) {
                Some((score, text)) => best is Some && best_score == score && best.unwrap()@ == text,
                None => best is None,
            },
        decreases records@.len() - i,
    {
        proof {
            assert(rv.take(i + 1).drop_last() =~= rv.take(i as int));
            assert(rv.take(i + 1).last() == rv[i as int]);
        }
        match &records[i] {
            Some(rec) => {
                if rec.name_id == 16 || rec.name_id == 1 {
                    match &rec.text {
                        Some(text) => {
                            let score: u8 = if rec.name_id == 16 {
                                if rec.platform_id == 3 && rec.language_id == 0x0409 {
                                    8
                                } else if rec.platform_id == 1 && rec.language_id == 0 {
                                    7
                                } else {
                                    6
                                }
                            } else if rec.platform_id == 3 && rec.language_id == 0x0409 {
                                4
                            } else if rec.platform_id == 1 && rec.language_id == 0 {
                                3
                            } else {
                                2
                            };
                            if best.is_none() || best_score < score {
                                best_score = score;
                                best = Some(text);
                            }
                        },
                        None => {},
                    }
                }
            },
            None => {},
        }
        i = i + 1;
    }
    proof {
        assert(rv.take(i as int) =~= rv);
    }
    match best {
        Some(text) => Some(text.clone()),
        None => None,
    }
}

/// The family name of face `face_index` of `data`: the best family
/// record of its `name` table, or `None` when the face does not parse
/// or has no decodable family record.
pub fn face_family_name(data: &[u8], face_index: u32) -> (r: Option<String>)
    ensures
        opt_text(r) == match face_name_records(data@, face_index) {
            Some(rs) => family_name_of(rs),
            None => None,
        },
{
    match name_records(data, face_index) {
        Some(records) => family_name_from_records(&records),
        None => None,
    }
}

/// Name IDs that carry a family label: family (1), full name (4),
/// PostScript name (6), typographic family (16), WWS family (21).
pub open spec fn is_family_label_id(id: u16) -> bool {
    id == 1 || id == 4 || id == 6 || id == 16 || id == 21
}

/// `s` without its leading white space.
pub open spec fn trim_start_chars(s: Seq<char>) -> Seq<char>
    decreases s.len(),
{
    if s.len() > 0 && white_space(s[0]) {
        trim_start_chars(s.drop_first())
    } else {
        s
    }
}

/// `s` without leading or trailing white space.
pub open spec fn trim_chars(s: Seq<char>) -> Seq<char> {
    trim_end_chars(trim_start_chars(s))
}

/// The distinct non-empty trimmed family labels of `rs`, in record
/// order, each at its first occurrence.
pub open spec fn family_labels(rs: Seq<Option<NameRecordView>>) -> Seq<Seq<char>>
    decreases rs.len(),
{
    if rs.len() == 0 {
        Seq::empty()
    } else {
        let acc = family_labels(rs.drop_last());
        match rs.last() {
            Some((id, _, _, Some(text))) => {
                let t = trim_chars(text);
                if is_family_label_id(id) && t.len() > 0 && !acc.contains(t) {
                    acc.push(t)
                } else {
                    acc
                }
            },
            _ => acc,
        }
    }
}

/// The text without leading or trailing white space.
pub(crate) fn trim_str(s: &str) -> (r: String)
    ensures
        r@ == trim_chars(s@),
{
    let cs = str_chars(s);
    let n = cs.len();
    let mut start: usize = 0;
    proof {
        assert(cs@.subrange(0, n as int) =~= cs@);
    }
    while start < n && is_white_space(cs[start])
        invariant
            start <= n,
            n == cs@.len(),
            cs@ == s@,
            trim_start_chars(cs@.subrange(start as int, n as int)) == trim_start_chars(s@),
        decreases n - start,
    {
        proof {
            assert(cs@.subrange(start as int, n as int).drop_first() =~= cs@.subrange(start + 1, n as int));
        }
        start = start + 1;
    }
    let ghost head = cs@.subrange(start as int, n as int);
    assert(trim_start_chars(head) == head);
    let mut end: usize = n;
    proof {
        assert(cs@.subrange(start as int, end as int) =~= head);
    }
    while end > start && is_white_space(cs[end - 1])
        invariant
            start <= end <= n,
            n == cs@.len(),
            head == cs@.subrange(start as int, n as int),
            trim_end_chars(cs@.subrange(start as int, end as int)) == trim_end_chars(head),
        decreases end,
    {
        proof {
            assert(cs@.subrange(start as int, end as int).drop_last() =~= cs@.subrange(
                start as int,
                end - 1,
            ));
        }
        end = end - 1;
    }
    let r = string_from_chars(&cs[start..end]);
    proof {
        let mid = cs@.subrange(start as int, end as int);
        assert(r@ =~= mid);
        if end > start {
            assert(!white_space(mid.last()));
        }
        assert(trim_end_chars(mid) == mid);
    }
    r
}

/// Whether `v` holds `s`.
fn contains_string(v: &Vec<String>, s: &str) -> (r: bool)
    ensures
        r == strings_view(v@).contains(s@),
{
    let mut i: usize = 0;
    while i < v.len()
        invariant
            i <= v@.len(),
            forall|j: int| 0 <= j < i ==> v@[j]@ != s@,
        decreases v@.len() - i,
    {
        if str_eq(v[i].as_str(), s) {
            assert(strings_view(v@)[i as int] == s@);
            return true;
        }
        i = i + 1;
    }
    proof {
        if strings_view(v@).contains(s@) {
            let j = choose|j: int| 0 <= j < strings_view(v@).len() && strings_view(v@)[j] == s@;
            assert(v@[j]@ == s@);
        }
    }
    false
}

/// Every family label of a face's `name` records (IDs 1, 4, 6, 16 and
/// 21, any platform and language), trimmed, without empty ones and
/// without repeats, in record order.
pub fn family_labels_from_records(records: &Vec<Option<NameRecord>>) -> (r: Vec<String>)
    ensures
        strings_view(r@) == family_labels(records_view(records@)),
{
    let ghost rv = records_view(records@);
    let mut out: Vec<String> = Vec::new();
    let mut i: usize = 0;
    proof {
        assert(rv.take(0) =~= Seq::<Option<NameRecordView>>::empty());
        assert(strings_view(out@) =~= Seq::<Seq<char>>::empty());
    }
    while i < records.len()
        invariant
            i <= records@.len(),
            rv == records_view(records@),
            strings_view(out@) == family_labels(rv.take(i as int)),
        decreases records@.len() - i,
    {
        proof {
            assert(rv.take(i + 1).drop_last() =~= rv.take(i as int));
            assert(rv.take(i + 1).last() == rv[i as int]);
        }
        match &records[i] {
            Some(rec) => {
                let id = rec.name_id;
                if id == 1 || id == 4 || id == 6 || id == 16 || id == 21 {
                    match &rec.text {
                        Some(text) => {
                            let t = trim_str(text.as_str());
                            if !t.as_str().is_empty() && !contains_string(&out, t.as_str()) {
                                let ghost before = strings_view(out@);
                                out.push(t);
                                assert(strings_view(out@) =~= before.push(trim_chars(text@)));
                            }
                        },
                        None => {},
                    }
                }
            },
            None => {},
        }
        i = i + 1;
    }
    proof {
        assert(rv.take(i as int) =~= rv);
    }
    out
}

/// Every family label face `face_index` of `data` answers to (see
/// [`family_labels_from_records`]); empty when the face does not parse.
pub fn face_all_family_names(data: &[u8], face_index: u32) -> (r: Vec<String>)
    ensures
        strings_view(r@) == match face_name_records(data@, face_index) {
            Some(rs) => family_labels(rs),
            None => Seq::empty(),
        },
{
    match name_records(data, face_index) {
        Some(records) => family_labels_from_records(&records),
        None => {
            let out: Vec<String> = Vec::new();
            assert(strings_view(out@) =~= Seq::<Seq<char>>::empty());
            out
        },
    }
}

/// The labels of the first `count` faces of `data`, merged in face
/// order without repeats; faces that do not parse contribute nothing.
pub open spec fn collection_labels(data: Seq<u8>, count: nat) -> Seq<Seq<char>>
    decreases count,
{
    if count == 0 {
        Seq::empty()
    } else {
        let acc = collection_labels(data, (count - 1) as nat);
        match face_name_records(data, (count - 1) as u32) {
            Some(rs) => append_unseen(acc, family_labels(rs)),
            None => acc,
        }
    }
}

/// The number of faces to walk: the collection's count, or one face for
/// a plain font file.
pub open spec fn faces_to_walk(data: Seq<u8>) -> nat {
    match collection_count(data) {
        Some(n) => n as nat,
        None => 1,
    }
}

/// Appends the items of `labels` that `out` does not hold yet.
fn merge_labels(out: &mut Vec<String>, labels: Vec<String>)
    ensures
        strings_view(final(out)@) == append_unseen(strings_view(old(out)@), strings_view(labels@)),
{
    let ghost start = strings_view(out@);
    let ghost lv = strings_view(labels@);
    let mut rest = labels;
    let mut i: usize = 0;
    let total = rest.len();
    proof {
        assert(lv.take(0) =~= Seq::<Seq<char>>::empty());
        assert(rest@ =~= labels@.subrange(0, total as int));
    }
    while rest.len() > 0
        invariant
            i + rest@.len() == lv.len(),
            lv.len() == total,
            lv == strings_view(labels@),
            rest@ == labels@.subrange(i as int, total as int),
            strings_view(out@) == append_unseen(start, lv.take(i as int)),
        decreases rest@.len(),
    {
        let name = rest.remove(0);
        proof {
            assert(rest@ =~= labels@.subrange(i + 1, total as int));
            assert(lv.take(i + 1).drop_last() =~= lv.take(i as int));
            assert(lv.take(i + 1).last() == lv[i as int]);
            assert(lv[i as int] == name@);
        }
        if !contains_string(out, name.as_str()) {
            let ghost before = strings_view(out@);
            out.push(name);
            assert(strings_view(out@) =~= before.push(lv[i as int]));
        }
        i = i + 1;
    }
    proof {
        assert(lv.take(i as int) =~= lv);
    }
}

/// Walks every face of `data` (every TTC sub-face, or the single face of
/// a plain file) and returns the union of their family labels, in face
/// order without repeats. Faces that do not parse are skipped.
pub fn all_face_family_names(data: &[u8]) -> (r: Vec<String>)
    ensures
        strings_view(r@) == collection_labels(data@, faces_to_walk(data@)),
{
    let count: u32 = match fonts_in_collection(data) {
        Some(n) => n,
        None => 1,
    };
    let mut out: Vec<String> = Vec::new();
    let mut idx: u32 = 0;
    proof {
        assert(strings_view(out@) =~= Seq::<Seq<char>>::empty());
    }
    while idx < count
        invariant
            idx <= count,
            count as nat == faces_to_walk(data@),
            strings_view(out@) == collection_labels(data@, idx as nat),
        decreases count - idx,
    {
        match name_records(data, idx) {
            Some(records) => {
                let labels = family_labels_from_records(&records);
                merge_labels(&mut out, labels);
            },
            None => {},
        }
        idx = idx + 1;
    }
    out
}

/// A face's family labels are distinct, and none is empty.
pub proof fn law_family_labels_distinct(rs: Seq<Option<NameRecordView>>)
    ensures
        family_labels(rs).no_duplicates(),
        forall|i: int| 0 <= i < family_labels(rs).len() ==> (#[trigger] family_labels(rs)[i]).len() > 0,
    decreases rs.len(),
{
    if rs.len() > 0 {
        let acc = family_labels(rs.drop_last());
        law_family_labels_distinct(rs.drop_last());
        let out = family_labels(rs);
        if out != acc {
            match rs.last() {
                Some((id, _, _, Some(text))) => {
                    let t = trim_chars(text);
                    assert(out == acc.push(t));
                    assert forall|i: int, j: int|
                        0 <= i < out.len() && 0 <= j < out.len() && i != j implies out[i] != out[j] by {
                        if i == acc.len() {
                            assert(out[j] == acc[j]);
                            assert(acc.contains(acc[j]));
                        } else if j == acc.len() {
                            assert(out[i] == acc[i]);
                            assert(acc.contains(acc[i]));
                        } else {
                            assert(out[i] == acc[i] && out[j] == acc[j]);
                        }
                    }
                    assert forall|i: int| 0 <= i < out.len() implies (#[trigger] out[i]).len() > 0 by {
                        if i < acc.len() {
                            assert(out[i] == acc[i]);
                        }
                    }
                },
                _ => {},
            }
        }
    }
}

/// The labels gathered from every face of a file are distinct.
pub proof fn law_collection_labels_distinct(data: Seq<u8>, count: nat)
    ensures
        collection_labels(data, count).no_duplicates(),
    decreases count,
{
    if count > 0 {
        let acc = collection_labels(data, (count - 1) as nat);
        law_collection_labels_distinct(data, (count - 1) as nat);
        match face_name_records(data, (count - 1) as u32) {
            Some(rs) => {
                law_append_unseen(acc, family_labels(rs));
            },
            None => {},
        }
    }
}

/// For each subtable of the `kern` table of face `face_index` of `data`,
/// in table order: whether it is horizontal, variable and cross-stream,
/// and the adjustment it gives the glyph pair `(left, right)`, as
/// `ttf-parser` reads them. Empty without a `kern` table; `None` when
/// the face does not parse.
pub uninterp spec fn face_kern_subtables(data: Seq<u8>, face_index: u32, left: u16, right: u16) -> Option<
    Seq<(bool, bool, bool, Option<i16>)>,
>;

/// Parses the face with `ttf_parser::Face::parse` and reads each `kern`
/// subtable's flags and `Subtable::glyphs_kerning` for the pair. The
/// contract claims only that the result is a function of the bytes, the
/// index and the pair.
#[verifier::external_body]
fn kern_subtables(data: &[u8], face_index: u32, left: u16, right: u16) -> (r: Option<
    Vec<(bool, bool, bool, Option<i16>)>,
>)
    ensures
        match r {
            Some(v) => face_kern_subtables(data@, face_index, left, right) == Some(v@),
            None => face_kern_subtables(data@, face_index, left, right) is None,
        },
{
    let face = ttf_parser::Face::parse(data, face_index).ok()?;
    let subtables = match face.tables().kern {
        Some(kern) => kern.subtables,
        None => return Some(Vec::new()),
    };
    let (l, rt) = (ttf_parser::GlyphId(left), ttf_parser::GlyphId(right));
    Some(subtables.into_iter().map(|st| (st.horizontal, st.variable, st.has_cross_stream, st.glyphs_kerning(l, rt))).collect())
}

/// The adjustment of the first horizontal, non-variable, non-cross-stream
/// subtable that has the pair; zero when none has it.
pub open spec fn kern_from(subs: Seq<(bool, bool, bool, Option<i16>)>) -> i16
    decreases subs.len(),
{
    if subs.len() == 0 {
        0
    } else {
        let st = subs[0];
        if st.0 && !st.1 && !st.2 && st.3 is Some {
            st.3.unwrap()
        } else {
            kern_from(subs.drop_first())
        }
    }
}

/// The kerning a glyph pair gets from `kern` subtables read as
/// `(horizontal, variable, cross_stream, adjustment)`: the first
/// horizontal, non-variable, non-cross-stream subtable that has the pair
/// decides; zero when none does.
pub fn kern_adjustment_from(subtables: &Vec<(bool, bool, bool, Option<i16>)>) -> (r: i16)
    ensures
        r == kern_from(subtables@),
{
    let n = subtables.len();
    let mut i: usize = 0;
    proof {
        assert(subtables@.subrange(0, n as int) =~= subtables@);
    }
    while i < n
        invariant
            i <= n,
            n == subtables@.len(),
            kern_from(subtables@.subrange(i as int, n as int)) == kern_from(subtables@),
        decreases n - i,
    {
        let st = subtables[i];
        proof {
            let rest = subtables@.subrange(i as int, n as int);
            assert(rest[0] == st);
            assert(rest.drop_first() =~= subtables@.subrange(i + 1, n as int));
        }
        if st.0 && !st.1 && !st.2 {
            match st.3 {
                Some(adj) => {
                    return adj;
                },
                None => {},
            }
        }
        i = i + 1;
    }
    proof {
        assert(subtables@.subrange(n as int, n as int).len() == 0);
    }
    0
}

/// Kerning of the glyph pair `(left, right)` in face `face_index` of
/// `data`, in font units, from its TrueType `kern` table (see
/// [`kern_adjustment_from`]); zero without a `kern` table or when the
/// face does not parse.
pub fn kern_pair_adjustment(data: &[u8], face_index: u32, left: u16, right: u16) -> (r: i16)
    ensures
        r == match face_kern_subtables(data@, face_index, left, right) {
            Some(subs) => kern_from(subs),
            None => 0,
        },
{
    match kern_subtables(data, face_index, left, right) {
        Some(subs) => kern_adjustment_from(&subs),
        None => 0,
    }
}


/// Sum of the advances that are present, in font units.
pub open spec fn advances_sum(advances: Seq<Option<u16>>) -> int
    decreases advances.len(),
{
    if advances.len() == 0 {
        0
    } else {
        advances_sum(advances.drop_last()) + match advances.last() {
            Some(a) => a as int,
            None => 0,
        }
    }
}

/// Width of a text in font units from the advances of its characters'
/// glyphs, `None` for a character without a glyph or advance: the sum of
/// the present advances, saturating at `u32::MAX`.
pub fn total_advance(advances: &Vec<Option<u16>>) -> (r: u32)
    ensures
        r == if advances_sum(advances@) < u32::MAX as int {
            advances_sum(advances@)
        } else {
            u32::MAX as int
        },
{
    let n = advances.len();
    let mut sum: u32 = 0;
    let mut i: usize = 0;
    while i < n
        invariant
            i <= n,
            n == advances@.len(),
            sum == if advances_sum(advances@.take(i as int)) < u32::MAX as int {
                advances_sum(advances@.take(i as int))
            } else {
                u32::MAX as int
            },
        decreases n - i,
    {
        assert(advances@.take(i + 1).drop_last() =~= advances@.take(i as int));
        if let Some(a) = advances[i] {
            sum = sum.saturating_add(a as u32);
        }
        i = i + 1;
    }
    assert(advances@.take(n as int) =~= advances@);
    sum
}

} // verus!
