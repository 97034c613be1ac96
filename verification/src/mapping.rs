//! Font family name mapping: PPTX family names onto open replacement
//! fonts.
//!
//! Latin Microsoft core fonts map to their metric-compatible Crosextra
//! clones; every CJK script and style maps to one language-standalone
//! Noto face. Lookup tries the raw name, then the name with full-width
//! ASCII folded to half-width, then an ASCII-case-insensitive scan.
use vstd::prelude::*;

use crate::strmap::{StrMap, chars_lt, lemma_chars_lt_asym, lemma_sorted_lookup, string_map_view};
use crate::strs::{push_char, str_chars, str_to_string};

verus! {

/// PPTX font name to replacement font name, in ascending key order.
pub type FontMapping = StrMap<String>;

/// The default mapping table.
pub const DEFAULT_FONT_MAPPING: [(&'static str, &'static str); 260] = [
    // ============================================================
    // Latin — Microsoft Core → Google Crosextra metric-clones.
    // Each pair is bit-exact metric-compatible.
    // ============================================================
    ("Calibri", "Carlito"),
    ("Calibri Light", "Carlito"),
    ("Arial", "Arimo"),
    ("Helvetica", "Arimo"),
    ("Times", "Tinos"),
    ("Times New Roman", "Tinos"),
    ("Courier", "Cousine"),
    ("Courier New", "Cousine"),
    ("Cambria", "Caladea"),
    // ============================================================
    // Japanese — sans-serif (gothic) → Noto Sans JP
    // ============================================================
    // Microsoft
    ("MS Gothic", "Noto Sans JP"),
    ("MS ゴシック", "Noto Sans JP"),
    ("MS PGothic", "Noto Sans JP"),
    ("MS Pゴシック", "Noto Sans JP"),
    ("MS UI Gothic", "Noto Sans JP"),
    ("Meiryo", "Noto Sans JP"),
    ("Meiryo UI", "Noto Sans JP"),
    ("メイリオ", "Noto Sans JP"),
    ("Yu Gothic", "Noto Sans JP"),
    ("Yu Gothic UI", "Noto Sans JP"),
    ("Yu Gothic Medium", "Noto Sans JP"),
    ("游ゴシック", "Noto Sans JP"),
    ("游ゴシック Medium", "Noto Sans JP"),
    ("HG創英角ｺﾞｼｯｸUB", "Noto Sans JP"),
    ("HGS創英角ｺﾞｼｯｸUB", "Noto Sans JP"),
    ("HGP創英角ｺﾞｼｯｸUB", "Noto Sans JP"),
    ("HG丸ｺﾞｼｯｸM-PRO", "Noto Sans JP"),
    // Apple / macOS
    ("Hiragino Sans", "Noto Sans JP"),
    ("Hiragino Kaku Gothic Pro", "Noto Sans JP"),
    ("Hiragino Kaku Gothic ProN", "Noto Sans JP"),
    ("Hiragino Kaku Gothic Std", "Noto Sans JP"),
    ("Hiragino Kaku Gothic StdN", "Noto Sans JP"),
    ("Hiragino Maru Gothic Pro", "Noto Sans JP"),
    ("Hiragino Maru Gothic ProN", "Noto Sans JP"),
    ("ヒラギノ角ゴ Pro", "Noto Sans JP"),
    ("ヒラギノ角ゴ ProN", "Noto Sans JP"),
    ("ヒラギノ丸ゴ Pro", "Noto Sans JP"),
    ("ヒラギノ丸ゴ ProN", "Noto Sans JP"),
    // Adobe Source Han / community
    ("Source Han Sans", "Noto Sans JP"),
    ("Source Han Sans J", "Noto Sans JP"),
    ("Source Han Sans JP", "Noto Sans JP"),
    ("Source Han Sans Japanese", "Noto Sans JP"),
    ("源ノ角ゴシック", "Noto Sans JP"),
    ("源ノ角ゴシック JP", "Noto Sans JP"),
    ("IPAGothic", "Noto Sans JP"),
    ("IPA Gothic", "Noto Sans JP"),
    ("IPAPGothic", "Noto Sans JP"),
    ("IPAexGothic", "Noto Sans JP"),
    ("M PLUS 1p", "Noto Sans JP"),
    ("M PLUS Rounded 1c", "Noto Sans JP"),
    ("Pretendard JP", "Noto Sans JP"),
    // ============================================================
    // Japanese — serif (mincho) → Noto Serif JP
    // ============================================================
    // Microsoft
    ("MS Mincho", "Noto Serif JP"),
    ("MS 明朝", "Noto Serif JP"),
    ("MS PMincho", "Noto Serif JP"),
    ("MS P明朝", "Noto Serif JP"),
    ("Yu Mincho", "Noto Serif JP"),
    ("Yu Mincho Light", "Noto Serif JP"),
    ("Yu Mincho Demibold", "Noto Serif JP"),
    ("游明朝", "Noto Serif JP"),
    ("游明朝 Light", "Noto Serif JP"),
    ("游明朝 Demibold", "Noto Serif JP"),
    ("HG明朝B", "Noto Serif JP"),
    ("HGS明朝B", "Noto Serif JP"),
    ("HGP明朝B", "Noto Serif JP"),
    ("HG明朝E", "Noto Serif JP"),
    // Apple / macOS
    ("Hiragino Mincho Pro", "Noto Serif JP"),
    ("Hiragino Mincho ProN", "Noto Serif JP"),
    ("Hiragino Mincho Std", "Noto Serif JP"),
    ("Hiragino Mincho StdN", "Noto Serif JP"),
    ("ヒラギノ明朝 Pro", "Noto Serif JP"),
    ("ヒラギノ明朝 ProN", "Noto Serif JP"),
    // Adobe Source Han / community
    ("Source Han Serif", "Noto Serif JP"),
    ("Source Han Serif J", "Noto Serif JP"),
    ("Source Han Serif JP", "Noto Serif JP"),
    ("Source Han Serif Japanese", "Noto Serif JP"),
    ("源ノ明朝", "Noto Serif JP"),
    ("源ノ明朝 JP", "Noto Serif JP"),
    ("IPAMincho", "Noto Serif JP"),
    ("IPA Mincho", "Noto Serif JP"),
    ("IPAPMincho", "Noto Serif JP"),
    ("IPAexMincho", "Noto Serif JP"),
    // ============================================================
    // Korean — sans-serif (gothic) → Noto Sans KR
    // ============================================================
    // Microsoft
    ("Malgun Gothic", "Noto Sans KR"),
    ("MalgunGothic", "Noto Sans KR"),
    ("맑은 고딕", "Noto Sans KR"),
    ("맑은고딕", "Noto Sans KR"),
    // Apple / macOS
    ("Apple SD Gothic Neo", "Noto Sans KR"),
    ("AppleSDGothicNeo", "Noto Sans KR"),
    ("Apple Gothic", "Noto Sans KR"),
    ("AppleGothic", "Noto Sans KR"),
    ("애플고딕", "Noto Sans KR"),
    // System legacy
    ("Dotum", "Noto Sans KR"),
    ("DotumChe", "Noto Sans KR"),
    ("돋움", "Noto Sans KR"),
    ("돋움체", "Noto Sans KR"),
    ("Gulim", "Noto Sans KR"),
    ("GulimChe", "Noto Sans KR"),
    ("굴림", "Noto Sans KR"),
    ("굴림체", "Noto Sans KR"),
    // Naver Nanum
    ("NanumGothic", "Noto Sans KR"),
    ("Nanum Gothic", "Noto Sans KR"),
    ("나눔고딕", "Noto Sans KR"),
    ("NanumBarunGothic", "Noto Sans KR"),
    ("Nanum Barun Gothic", "Noto Sans KR"),
    ("나눔바른고딕", "Noto Sans KR"),
    ("NanumSquare", "Noto Sans KR"),
    ("Nanum Square", "Noto Sans KR"),
    ("나눔스퀘어", "Noto Sans KR"),
    ("NanumSquareRound", "Noto Sans KR"),
    ("나눔스퀘어라운드", "Noto Sans KR"),
    ("NanumGothicCoding", "Noto Sans KR"),
    ("나눔고딕코딩", "Noto Sans KR"),
    // Adobe Source Han / community
    ("Source Han Sans K", "Noto Sans KR"),
    ("Source Han Sans KR", "Noto Sans KR"),
    ("Source Han Sans Korean", "Noto Sans KR"),
    ("본고딕", "Noto Sans KR"),
    ("Pretendard", "Noto Sans KR"),
    ("Pretendard Variable", "Noto Sans KR"),
    ("Spoqa Han Sans", "Noto Sans KR"),
    ("Spoqa Han Sans Neo", "Noto Sans KR"),
    ("KoPub Dotum", "Noto Sans KR"),
    ("KoPubDotum", "Noto Sans KR"),
    ("KoPubDotum_Pro", "Noto Sans KR"),
    ("KoPub돋움체", "Noto Sans KR"),
    ("함초롬돋움", "Noto Sans KR"),
    ("HCR Dotum", "Noto Sans KR"),
    // Hanyang (HY) — gothic
    ("HY견고딕", "Noto Sans KR"),
    ("HYGothic", "Noto Sans KR"),
    ("HY GoThic", "Noto Sans KR"),
    ("HY중고딕", "Noto Sans KR"),
    ("HY헤드라인M", "Noto Sans KR"),
    ("HYHeadLineM", "Noto Sans KR"),
    ("HY그래픽M", "Noto Sans KR"),
    ("HYGraphic-Medium", "Noto Sans KR"),
    ("HY얕은샘물M", "Noto Sans KR"),
    ("HYShortSamulM", "Noto Sans KR"),
    // ============================================================
    // Korean — serif (myeongjo / batang) → Noto Serif KR
    // ============================================================
    // Microsoft / system
    ("Batang", "Noto Serif KR"),
    ("BatangChe", "Noto Serif KR"),
    ("바탕", "Noto Serif KR"),
    ("바탕체", "Noto Serif KR"),
    ("Gungsuh", "Noto Serif KR"),
    ("GungsuhChe", "Noto Serif KR"),
    ("궁서", "Noto Serif KR"),
    ("궁서체", "Noto Serif KR"),
    // Apple / macOS
    ("AppleMyungjo", "Noto Serif KR"),
    ("Apple Myungjo", "Noto Serif KR"),
    ("애플명조", "Noto Serif KR"),
    // Naver Nanum
    ("NanumMyeongjo", "Noto Serif KR"),
    ("Nanum Myeongjo", "Noto Serif KR"),
    ("나눔명조", "Noto Serif KR"),
    // Adobe Source Han / community
    ("Source Han Serif K", "Noto Serif KR"),
    ("Source Han Serif KR", "Noto Serif KR"),
    ("Source Han Serif Korean", "Noto Serif KR"),
    ("본명조", "Noto Serif KR"),
    ("KoPub Batang", "Noto Serif KR"),
    ("KoPubBatang", "Noto Serif KR"),
    ("KoPubBatang_Pro", "Noto Serif KR"),
    ("KoPub바탕체", "Noto Serif KR"),
    ("함초롬바탕", "Noto Serif KR"),
    ("HCR Batang", "Noto Serif KR"),
    // Hanyang (HY) — myeongjo / kai
    ("HY견명조", "Noto Serif KR"),
    ("HYMyeongJo", "Noto Serif KR"),
    ("HY신명조", "Noto Serif KR"),
    ("HY궁서", "Noto Serif KR"),
    ("HYGungSo-Bold", "Noto Serif KR"),
    // ============================================================
    // Simplified Chinese — sans-serif (heiti / 黑体) → Noto Sans SC
    // ============================================================
    // Microsoft
    ("Microsoft YaHei", "Noto Sans SC"),
    ("Microsoft YaHei UI", "Noto Sans SC"),
    ("微软雅黑", "Noto Sans SC"),
    ("SimHei", "Noto Sans SC"),
    ("黑体", "Noto Sans SC"),
    ("DengXian", "Noto Sans SC"),
    ("DengXian Light", "Noto Sans SC"),
    ("等线", "Noto Sans SC"),
    // Apple / macOS
    ("PingFang SC", "Noto Sans SC"),
    ("苹方-简", "Noto Sans SC"),
    ("Heiti SC", "Noto Sans SC"),
    ("Heiti SC Light", "Noto Sans SC"),
    ("Heiti SC Medium", "Noto Sans SC"),
    ("STHeiti", "Noto Sans SC"),
    ("STHeiti Light", "Noto Sans SC"),
    ("华文黑体", "Noto Sans SC"),
    ("STXihei", "Noto Sans SC"),
    ("华文细黑", "Noto Sans SC"),
    // Founder (Fangzheng)
    ("FZHei-B01", "Noto Sans SC"),
    ("FZLanTingHei-S-DB", "Noto Sans SC"),
    ("方正黑体", "Noto Sans SC"),
    ("方正兰亭黑", "Noto Sans SC"),
    // Adobe Source Han / community
    ("Source Han Sans SC", "Noto Sans SC"),
    ("Source Han Sans CN", "Noto Sans SC"),
    ("Source Han Sans Simplified Chinese", "Noto Sans SC"),
    ("思源黑体", "Noto Sans SC"),
    ("思源黑体 CN", "Noto Sans SC"),
    // ============================================================
    // Simplified Chinese — serif (Song / Kai) → Noto Serif SC
    // ============================================================
    // Microsoft
    ("SimSun", "Noto Serif SC"),
    ("宋体", "Noto Serif SC"),
    ("NSimSun", "Noto Serif SC"),
    ("新宋体", "Noto Serif SC"),
    ("FangSong", "Noto Serif SC"),
    ("仿宋", "Noto Serif SC"),
    ("STFangsong", "Noto Serif SC"),
    ("华文仿宋", "Noto Serif SC"),
    ("KaiTi", "Noto Serif SC"),
    ("楷体", "Noto Serif SC"),
    ("STKaiti", "Noto Serif SC"),
    ("华文楷体", "Noto Serif SC"),
    // Apple / macOS
    ("Songti SC", "Noto Serif SC"),
    ("宋体-简", "Noto Serif SC"),
    ("STSong", "Noto Serif SC"),
    ("华文宋体", "Noto Serif SC"),
    // Founder
    ("FZShuSong-Z01", "Noto Serif SC"),
    ("方正书宋", "Noto Serif SC"),
    // Adobe Source Han / community
    ("Source Han Serif SC", "Noto Serif SC"),
    ("Source Han Serif CN", "Noto Serif SC"),
    ("Source Han Serif Simplified Chinese", "Noto Serif SC"),
    ("思源宋体", "Noto Serif SC"),
    ("思源宋体 CN", "Noto Serif SC"),
    // ============================================================
    // Traditional Chinese — sans-serif → Noto Sans TC
    // ============================================================
    // Microsoft
    ("Microsoft JhengHei", "Noto Sans TC"),
    ("Microsoft JhengHei UI", "Noto Sans TC"),
    ("微軟正黑體", "Noto Sans TC"),
    // Apple / macOS
    ("PingFang TC", "Noto Sans TC"),
    ("PingFang HK", "Noto Sans TC"),
    ("苹方-繁", "Noto Sans TC"),
    ("蘋方-繁", "Noto Sans TC"),
    ("Heiti TC", "Noto Sans TC"),
    ("Heiti TC Light", "Noto Sans TC"),
    ("Heiti TC Medium", "Noto Sans TC"),
    // Adobe Source Han / community
    ("Source Han Sans TC", "Noto Sans TC"),
    ("Source Han Sans TW", "Noto Sans TC"),
    ("Source Han Sans HK", "Noto Sans TC"),
    ("Source Han Sans Traditional Chinese", "Noto Sans TC"),
    ("思源黑體", "Noto Sans TC"),
    ("思源黑體 TC", "Noto Sans TC"),
    // ============================================================
    // Traditional Chinese — serif (Ming / Kai) → Noto Serif TC
    // ============================================================
    // Microsoft
    ("PMingLiU", "Noto Serif TC"),
    ("新細明體", "Noto Serif TC"),
    ("MingLiU", "Noto Serif TC"),
    ("細明體", "Noto Serif TC"),
    ("MingLiU_HKSCS", "Noto Serif TC"),
    ("PMingLiU-ExtB", "Noto Serif TC"),
    ("MingLiU-ExtB", "Noto Serif TC"),
    ("DFKai-SB", "Noto Serif TC"),
    ("標楷體", "Noto Serif TC"),
    // Apple / macOS
    ("Songti TC", "Noto Serif TC"),
    ("宋體-繁", "Noto Serif TC"),
    ("LiSong Pro", "Noto Serif TC"),
    ("儷宋 Pro", "Noto Serif TC"),
    ("BiauKai", "Noto Serif TC"),
    ("標楷體-繁", "Noto Serif TC"),
    // Adobe Source Han / community
    ("Source Han Serif TC", "Noto Serif TC"),
    ("Source Han Serif TW", "Noto Serif TC"),
    ("Source Han Serif HK", "Noto Serif TC"),
    ("Source Han Serif Traditional Chinese", "Noto Serif TC"),
    ("思源宋體", "Noto Serif TC"),
    ("思源宋體 TC", "Noto Serif TC"),
    // ============================================================
    // Pan-CJK alias normalization. PowerPoint emits the CJK names
    // when a theme references the pan-CJK Adobe / Google file; we
    // load the language-standalone files, so collapse the alias.
    // HK collapses to TC (Noto has no separate HK file).
    // ============================================================
    ("Noto Sans CJK JP", "Noto Sans JP"),
    ("Noto Serif CJK JP", "Noto Serif JP"),
    ("Noto Sans CJK KR", "Noto Sans KR"),
    ("Noto Serif CJK KR", "Noto Serif KR"),
    ("Noto Sans CJK SC", "Noto Sans SC"),
    ("Noto Serif CJK SC", "Noto Serif SC"),
    ("Noto Sans CJK TC", "Noto Sans TC"),
    ("Noto Serif CJK TC", "Noto Serif TC"),
    ("Noto Sans CJK HK", "Noto Sans TC"),
    ("Noto Serif CJK HK", "Noto Serif TC"),
];

/// Full-width ASCII (`U+FF01..=U+FF5E`) and the ideographic space
/// (`U+3000`) folded to their half-width forms; other characters kept.
pub open spec fn half_width_char(c: char) -> char {
    if 0xFF01 <= (c as u32) && (c as u32) <= 0xFF5E {
        ((((c as u32) - 0xFEE0) as u8) as char)
    } else if (c as u32) == 0x3000 {
        ' '
    } else {
        c
    }
}

/// `A..=Z` lowered to `a..=z`; other characters kept.
pub open spec fn lower_ascii_char(c: char) -> char {
    if 'A' <= c && c <= 'Z' {
        ((((c as u32) + 32) as u8) as char)
    } else {
        c
    }
}

/// The name with full-width ASCII folded to half-width.
pub open spec fn half_width(s: Seq<char>) -> Seq<char> {
    s.map_values(|c: char| half_width_char(c))
}

/// The name with ASCII capitals lowered.
pub open spec fn lower_ascii(s: Seq<char>) -> Seq<char> {
    s.map_values(|c: char| lower_ascii_char(c))
}

/// The form in which the case-insensitive scan compares names.
pub open spec fn folded_name(s: Seq<char>) -> Seq<char> {
    lower_ascii(half_width(s))
}

/// The pairs of a string table, by view.
pub open spec fn str_pairs_view(s: Seq<(&str, &str)>) -> Seq<(Seq<char>, Seq<char>)> {
    s.map_values(|p: (&str, &str)| (p.0@, p.1@))
}

/// The pairs of a `String` list, by view.
pub open spec fn string_pairs_view(s: Seq<(String, String)>) -> Seq<(Seq<char>, Seq<char>)> {
    s.map_values(|p: (String, String)| (p.0@, p.1@))
}

/// `m` with the pairs of `s` inserted in order, later pairs winning.
pub open spec fn insert_all(m: Map<Seq<char>, Seq<char>>, s: Seq<(Seq<char>, Seq<char>)>) -> Map<
    Seq<char>,
    Seq<char>,
>
    decreases s.len(),
{
    if s.len() == 0 {
        m
    } else {
        insert_all(m, s.drop_last()).insert(s.last().0, s.last().1)
    }
}

/// The map that [`default_font_mapping`] builds.
pub open spec fn default_mapping_view() -> Map<Seq<char>, Seq<char>> {
    insert_all(Map::empty(), str_pairs_view(DEFAULT_FONT_MAPPING@))
}

/// `k` is the least key of `m`, in code-point order, whose folded form
/// is `target`.
pub open spec fn is_least_folded_key(m: Map<Seq<char>, Seq<char>>, target: Seq<char>, k: Seq<char>) -> bool {
    &&& m.dom().contains(k)
    &&& folded_name(k) == target
    &&& forall|k2: Seq<char>|
        #![trigger m.dom().contains(k2)]
        m.dom().contains(k2) && folded_name(k2) == target && k2 != k ==> chars_lt(k, k2)
}

/// The value of the least key of `m` whose folded form is `target`.
pub open spec fn folded_lookup(m: Map<Seq<char>, Seq<char>>, target: Seq<char>) -> Option<Seq<char>> {
    if exists|k: Seq<char>| is_least_folded_key(m, target, k) {
        Some(m[choose|k: Seq<char>| is_least_folded_key(m, target, k)])
    } else {
        None
    }
}

/// What [`get_mapped_font`] returns for `name` in the map `m`.
pub open spec fn mapped_font(name: Seq<char>, m: Map<Seq<char>, Seq<char>>) -> Option<Seq<char>> {
    if name.len() == 0 {
        None
    } else if m.dom().contains(name) {
        Some(m[name])
    } else if m.dom().contains(half_width(name)) {
        Some(m[half_width(name)])
    } else {
        folded_lookup(m, folded_name(name))
    }
}

/// The characters of an optional `String`.
pub open spec fn opt_string_view(o: Option<String>) -> Option<Seq<char>> {
    match o {
        Some(s) => Some(s@),
        None => None,
    }
}

/// One character folded to half-width.
pub fn half_width_of(c: char) -> (r: char)
    ensures
        r == half_width_char(c),
{
    let cp = c as u32;
    if 0xFF01 <= cp && cp <= 0xFF5E {
        ((cp - 0xFEE0) as u8) as char
    } else if cp == 0x3000 {
        ' '
    } else {
        c
    }
}

/// One character with an ASCII capital lowered.
pub fn lower_ascii_of(c: char) -> (r: char)
    ensures
        r == lower_ascii_char(c),
{
    if 'A' <= c && c <= 'Z' {
        ((c as u32 + 32) as u8) as char
    } else {
        c
    }
}

/// Normalizes full-width ASCII (`U+FF01..U+FF5E`) and the ideographic
/// space (`U+3000`) to their half-width counterparts.
pub fn normalize_full_width(s: &str) -> (r: String)
    ensures
        r@ == half_width(s@),
{
    let cs = str_chars(s);
    let mut out = String::new();
    let mut i: usize = 0;
    while i < cs.len()
        invariant
            i <= cs.len(),
            cs@ == s@,
            out@ == half_width(s@).take(i as int),
        decreases cs.len() - i,
    {
        let c = half_width_of(cs[i]);
        push_char(&mut out, c);
        i = i + 1;
        assert(out@ =~= half_width(s@).take(i as int));
    }
    assert(half_width(s@).take(i as int) =~= half_width(s@));
    out
}

/// ASCII-only lowercasing: only `A..Z` are folded.
pub fn ascii_lowercase(s: &str) -> (r: String)
    ensures
        r@ == lower_ascii(s@),
{
    let cs = str_chars(s);
    let mut out = String::new();
    let mut i: usize = 0;
    while i < cs.len()
        invariant
            i <= cs.len(),
            cs@ == s@,
            out@ == lower_ascii(s@).take(i as int),
        decreases cs.len() - i,
    {
        let c = lower_ascii_of(cs[i]);
        push_char(&mut out, c);
        i = i + 1;
        assert(out@ =~= lower_ascii(s@).take(i as int));
    }
    assert(lower_ascii(s@).take(i as int) =~= lower_ascii(s@));
    out
}

proof fn lemma_insert_all_step(m: Map<Seq<char>, Seq<char>>, s: Seq<(Seq<char>, Seq<char>)>, i: int)
    requires
        0 <= i < s.len(),
    ensures
        insert_all(m, s.take(i + 1)) == insert_all(m, s.take(i)).insert(s[i].0, s[i].1),
{
    assert(s.take(i + 1).drop_last() =~= s.take(i));
}

proof fn lemma_string_map_view_insert(m: Map<Seq<char>, String>, k: Seq<char>, v: String)
    ensures
        string_map_view(m.insert(k, v)) == string_map_view(m).insert(k, v@),
{
    assert(string_map_view(m.insert(k, v)) =~= string_map_view(m).insert(k, v@));
}

/// Builds the default mapping table from [`DEFAULT_FONT_MAPPING`].
pub fn default_font_mapping() -> (r: FontMapping)
    ensures
        r.wf(),
        string_map_view(r.as_map()) == default_mapping_view(),
{
    let mut m: FontMapping = StrMap::new();
    let ghost pv = str_pairs_view(DEFAULT_FONT_MAPPING@);
    let mut i: usize = 0;
    proof {
        assert(m.as_map() =~= Map::<Seq<char>, String>::empty());
        assert(string_map_view(m.as_map()) =~= Map::<Seq<char>, Seq<char>>::empty());
        assert(pv.take(0) =~= Seq::<(Seq<char>, Seq<char>)>::empty());
    }
    while i < 260
        invariant
            i <= 260,
            pv == str_pairs_view(DEFAULT_FONT_MAPPING@),
            pv.len() == 260,
            m.wf(),
            string_map_view(m.as_map()) == insert_all(Map::empty(), pv.take(i as int)),
        decreases 260 - i,
    {
        let (k, v) = DEFAULT_FONT_MAPPING[i];
        let ks = str_to_string(k);
        let vs = str_to_string(v);
        proof {
            lemma_insert_all_step(Map::empty(), pv, i as int);
            lemma_string_map_view_insert(m.as_map(), ks@, vs);
        }
        m.insert(ks, vs);
        i = i + 1;
    }
    proof {
        assert(pv.take(260) =~= pv);
    }
    m
}

/// The default table with `user`'s pairs inserted on top, in order; a
/// user pair with a key of the table overrides it.
pub fn create_font_mapping(user: Option<Vec<(String, String)>>) -> (r: FontMapping)
    ensures
        r.wf(),
        string_map_view(r.as_map()) == match user {
            Some(u) => insert_all(default_mapping_view(), string_pairs_view(u@)),
            None => default_mapping_view(),
        },
{
    let mut m = default_font_mapping();
    match user {
        Some(entries) => {
            let ghost pv = string_pairs_view(entries@);
            proof {
                assert(pv.take(0) =~= Seq::<(Seq<char>, Seq<char>)>::empty());
            }
            let mut i: usize = 0;
            while i < entries.len()
                invariant
                    i <= entries.len(),
                    pv == string_pairs_view(entries@),
                    m.wf(),
                    string_map_view(m.as_map()) == insert_all(default_mapping_view(), pv.take(i as int)),
                decreases entries.len() - i,
            {
                let k = entries[i].0.clone();
                let v = entries[i].1.clone();
                proof {
                    lemma_insert_all_step(default_mapping_view(), pv, i as int);
                    lemma_string_map_view_insert(m.as_map(), k@, v);
                }
                m.insert(k, v);
                i = i + 1;
            }
            proof {
                assert(pv.take(entries.len() as int) =~= pv);
            }
        },
        None => {},
    }
    m
}

/// Resolves a PPTX font name through `mapping`: exact match, then
/// exact match after full-width folding, then the first key (in key
/// order) equal to the name after full-width folding and ASCII
/// lowercasing on both sides. `None` when nothing matches or the name
/// is empty.
pub fn get_mapped_font(font_family: &str, mapping: &FontMapping) -> (r: Option<String>)
    requires
        mapping.wf(),
    ensures
        opt_string_view(r) == mapped_font(font_family@, string_map_view(mapping.as_map())),
{
    let cs = str_chars(font_family);
    if cs.len() == 0 {
        return None;
    }
    match mapping.get(font_family) {
        Some(v) => {
            return Some(v.clone());
        },
        None => {},
    }
    let normalized = normalize_full_width(font_family);
    match mapping.get(normalized.as_str()) {
        Some(v) => {
            return Some(v.clone());
        },
        None => {},
    }
    let lower = ascii_lowercase(normalized.as_str());
    let ghost ev = mapping.entries_view();
    let ghost target = folded_name(font_family@);
    let n = mapping.len();
    let mut i: usize = 0;
    while i < n
        invariant
            i <= n,
            n == ev.len(),
            mapping.wf(),
            ev == mapping.entries_view(),
            lower@ == target,
            target == folded_name(font_family@),
            font_family@.len() > 0,
            !mapping.as_map().dom().contains(font_family@),
            !mapping.as_map().dom().contains(half_width(font_family@)),
            forall|k: int| 0 <= k < i ==> folded_name(#[trigger] ev[k].0) != target,
        decreases n - i,
    {
        let (key, value) = mapping.entry_at(i);
        let folded = ascii_lowercase(normalize_full_width(key.as_str()).as_str());
        if folded == lower {
            proof {
                lemma_first_match_is_least(*mapping, target, i as int);
            }
            return Some(value.clone());
        }
        i = i + 1;
    }
    proof {
        lemma_no_folded_match(*mapping, target);
    }
    None
}

/// Keys that no user pair names keep the entry, or the absence of one,
/// that the base table had.
pub proof fn law_unnamed_keys_keep_base(
    base: Map<Seq<char>, Seq<char>>,
    s: Seq<(Seq<char>, Seq<char>)>,
    k: Seq<char>,
)
    requires
        forall|i: int| 0 <= i < s.len() ==> (#[trigger] s[i]).0 != k,
    ensures
        insert_all(base, s).dom().contains(k) == base.dom().contains(k),
        base.dom().contains(k) ==> insert_all(base, s)[k] == base[k],
    decreases s.len(),
{
    if s.len() > 0 {
        assert(s.last() == s[s.len() - 1]);
        law_unnamed_keys_keep_base(base, s.drop_last(), k);
    }
}

/// The last pair that names a key decides its value.
pub proof fn law_last_pair_wins(
    base: Map<Seq<char>, Seq<char>>,
    s: Seq<(Seq<char>, Seq<char>)>,
    i: int,
)
    requires
        0 <= i < s.len(),
        forall|j: int| i < j < s.len() ==> (#[trigger] s[j]).0 != s[i].0,
    ensures
        insert_all(base, s).dom().contains(s[i].0),
        insert_all(base, s)[s[i].0] == s[i].1,
    decreases s.len(),
{
    if i < s.len() - 1 {
        assert(s.last() == s[s.len() - 1]);
        let t = s.drop_last();
        assert forall|j: int| i < j < t.len() implies (#[trigger] t[j]).0 != t[i].0 by {
            assert(t[j] == s[j]);
        }
        law_last_pair_wins(base, t, i);
    }
}

/// The entries and the map of a `String`-valued map agree.
proof fn lemma_entry_in_view(m: FontMapping, i: int)
    requires
        m.wf(),
        0 <= i < m.entries_view().len(),
    ensures
        string_map_view(m.as_map()).dom().contains(m.entries_view()[i].0),
        string_map_view(m.as_map())[m.entries_view()[i].0] == m.entries_view()[i].1@,
{
    m.lemma_sorted();
    lemma_sorted_lookup(m.entries_view(), i);
}

/// A key of the map is the key of some entry.
proof fn lemma_key_has_entry(m: FontMapping, k: Seq<char>) -> (j: int)
    requires
        string_map_view(m.as_map()).dom().contains(k),
    ensures
        0 <= j < m.entries_view().len(),
        m.entries_view()[j].0 == k,
{
    choose|j: int| 0 <= j < m.entries_view().len() && (#[trigger] m.entries_view()[j]).0 == k
}

/// The first entry, in key order, whose key folds to `target` holds the
/// least such key, and the folded lookup gives its value.
proof fn lemma_first_match_is_least(m: FontMapping, target: Seq<char>, i: int)
    requires
        m.wf(),
        0 <= i < m.entries_view().len(),
        folded_name(m.entries_view()[i].0) == target,
        forall|k: int| 0 <= k < i ==> folded_name(#[trigger] m.entries_view()[k].0) != target,
    ensures
        is_least_folded_key(string_map_view(m.as_map()), target, m.entries_view()[i].0),
        folded_lookup(string_map_view(m.as_map()), target) == Some(m.entries_view()[i].1@),
{
    let ev = m.entries_view();
    let mv = string_map_view(m.as_map());
    let k = ev[i].0;
    m.lemma_sorted();
    lemma_entry_in_view(m, i);
    assert forall|k2: Seq<char>| #![trigger mv.dom().contains(k2)]
        mv.dom().contains(k2) && folded_name(k2) == target && k2 != k implies chars_lt(k, k2) by {
        let j = lemma_key_has_entry(m, k2);
        if j < i {
            assert(folded_name(ev[j].0) != target);
        }
        if j > i {
            assert(chars_lt(ev[i].0, ev[j].0));
        }
    }
    let c = choose|k3: Seq<char>| is_least_folded_key(mv, target, k3);
    assert(is_least_folded_key(mv, target, k));
    if c != k {
        lemma_chars_lt_asym(k, c);
    }
}

/// When no key folds to `target`, the folded lookup finds nothing.
proof fn lemma_no_folded_match(m: FontMapping, target: Seq<char>)
    requires
        m.wf(),
        forall|k: int| 0 <= k < m.entries_view().len() ==> folded_name(#[trigger] m.entries_view()[k].0)
            != target,
    ensures
        folded_lookup(string_map_view(m.as_map()), target) is None,
{
    let mv = string_map_view(m.as_map());
    if exists|k: Seq<char>| is_least_folded_key(mv, target, k) {
        let k = choose|k: Seq<char>| is_least_folded_key(mv, target, k);
        let j = lemma_key_has_entry(m, k);
        assert(folded_name(m.entries_view()[j].0) != target);
    }
}

/// The first entry at or after `start` whose key folds to `target`,
/// given that one at `j` does and none before `start` does.
proof fn lemma_first_folded_entry(m: FontMapping, target: Seq<char>, start: int, j: int) -> (i: int)
    requires
        0 <= start <= j < m.entries_view().len(),
        folded_name(m.entries_view()[j].0) == target,
        forall|k: int| 0 <= k < start ==> folded_name(#[trigger] m.entries_view()[k].0) != target,
    ensures
        0 <= i <= j,
        folded_name(m.entries_view()[i].0) == target,
        forall|k: int| 0 <= k < i ==> folded_name(#[trigger] m.entries_view()[k].0) != target,
    decreases j - start,
{
    if folded_name(m.entries_view()[start].0) == target {
        start
    } else {
        assert forall|k: int| 0 <= k < start + 1 implies folded_name(
            #[trigger] m.entries_view()[k].0,
        ) != target by {
            if k < start {
                assert(folded_name(m.entries_view()[k].0) != target);
            }
        }
        lemma_first_folded_entry(m, target, start + 1, j)
    }
}

/// A non-empty name that equals some key of the mapping up to ASCII
/// case and full-width forms always resolves.
pub proof fn law_lookup_ignores_case_and_width(name: Seq<char>, m: FontMapping, key: Seq<char>)
    requires
        m.wf(),
        name.len() > 0,
        string_map_view(m.as_map()).dom().contains(key),
        folded_name(key) == folded_name(name),
    ensures
        mapped_font(name, string_map_view(m.as_map())) is Some,
{
    let j = lemma_key_has_entry(m, key);
    let i = lemma_first_folded_entry(m, folded_name(name), 0, j);
    lemma_first_match_is_least(m, folded_name(name), i);
}

/// Folding to half-width twice is folding once.
pub proof fn law_half_width_idempotent(s: Seq<char>)
    ensures
        half_width(half_width(s)) == half_width(s),
{
    assert forall|i: int| 0 <= i < s.len() implies half_width_char(half_width_char(s[i]))
        == half_width_char(s[i]) by {
        let c = s[i];
        if 0xFF01 <= (c as u32) && (c as u32) <= 0xFF5E {
            let b = (((c as u32) - 0xFEE0) as u8);
            assert(b as u32 == (c as u32) - 0xFEE0);
            assert((b as char) as u32 == b as u32);
        }
    }
    assert(half_width(half_width(s)) =~= half_width(s));
}

/// Lowering ASCII twice is lowering once.
pub proof fn law_lower_ascii_idempotent(s: Seq<char>)
    ensures
        lower_ascii(lower_ascii(s)) == lower_ascii(s),
{
    assert forall|i: int| 0 <= i < s.len() implies lower_ascii_char(lower_ascii_char(s[i]))
        == lower_ascii_char(s[i]) by {
        let c = s[i];
        if 'A' <= c && c <= 'Z' {
            let b = (((c as u32) + 32) as u8);
            assert(b as u32 == (c as u32) + 32);
            assert((b as char) as u32 == b as u32);
        }
    }
    assert(lower_ascii(lower_ascii(s)) =~= lower_ascii(s));
}

} // verus!
