//! Unicode code-point classification for font selection and width
//! estimation, and splitting text into runs of one script.
use vstd::prelude::*;

use crate::strs::{concat_chars, push_char, str_chars};

verus! {

/// The rendering script of a text segment.
#[derive(Copy, Clone, Debug, PartialEq, Eq, Structural)]
pub enum Script {
    /// Latin / non-CJK — uses the run's primary (`latin`) font.
    Latin,
    /// Hangul (Korean). ISO 15924 `Hang`.
    Korean,
    /// Hiragana / Katakana. ISO 15924 `Jpan`.
    Japanese,
    /// CJK ideographs and shared CJK blocks. ISO 15924 `Hans`.
    SimplifiedChinese,
    /// Traditional Chinese when explicitly classified. ISO 15924 `Hant`.
    TraditionalChinese,
    /// Private Use Area routed to the East-Asian font.
    Pua,
}

impl Script {
    /// Whether this script uses the East-Asian font: every script but
    /// Latin.
    pub fn is_ea(self) -> (r: bool)
        ensures
            r == (self != Script::Latin),
    {
        match self {
            Script::Latin => false,
            _ => true,
        }
    }
}

/// A segment of text with a uniform script classification.
#[derive(Clone, Debug, PartialEq, Eq)]
pub struct TextPart {
    /// The text fragment.
    pub text: String,
    /// Script detected for this fragment.
    pub script: Script,
}

/// `lo <= cp <= hi`.
pub open spec fn in_range(cp: u32, lo: u32, hi: u32) -> bool {
    lo <= cp && cp <= hi
}

/// The script a code point is rendered with: Hangul blocks and halfwidth
/// Hangul are Korean; Hiragana, Katakana and Katakana extensions are
/// Japanese; the shared CJK blocks, compatibility ideographs, fullwidth
/// forms and Extension B default to Simplified Chinese; the general
/// Private Use Area and `U+F100..U+F8FF` are PUA; the rest (including
/// the symbol PUA `U+F000..U+F0FF`) is Latin.
pub open spec fn script_of(cp: u32) -> Script {
    if in_range(cp, 0x1100, 0x11FF) || in_range(cp, 0x3130, 0x318F) || in_range(cp, 0xA960, 0xA97F)
        || in_range(cp, 0xAC00, 0xD7A3) || in_range(cp, 0xD7B0, 0xD7FF) || in_range(
        cp,
        0xFFA0,
        0xFFDC,
    ) {
        Script::Korean
    } else if in_range(cp, 0x3040, 0x309F) || in_range(cp, 0x30A0, 0x30FF) || in_range(
        cp,
        0x31F0,
        0x31FF,
    ) {
        Script::Japanese
    } else if in_range(cp, 0x3000, 0x9FFF) || in_range(cp, 0xF900, 0xFAFF) || in_range(
        cp,
        0xFF01,
        0xFF60,
    ) || in_range(cp, 0x2_0000, 0x2_A6DF) {
        Script::SimplifiedChinese
    } else if in_range(cp, 0xE000, 0xEFFF) || in_range(cp, 0xF100, 0xF8FF) {
        Script::Pua
    } else {
        Script::Latin
    }
}

/// Classifies a single code point into a [`Script`].
pub fn classify_script(code_point: u32) -> (r: Script)
    ensures
        r == script_of(code_point),
{
    let cp = code_point;
    if (0x1100 <= cp && cp <= 0x11FF) || (0x3130 <= cp && cp <= 0x318F) || (0xA960 <= cp && cp
        <= 0xA97F) || (0xAC00 <= cp && cp <= 0xD7A3) || (0xD7B0 <= cp && cp <= 0xD7FF) || (0xFFA0
        <= cp && cp <= 0xFFDC) {
        Script::Korean
    } else if (0x3040 <= cp && cp <= 0x309F) || (0x30A0 <= cp && cp <= 0x30FF) || (0x31F0 <= cp
        && cp <= 0x31FF) {
        Script::Japanese
    } else if (0x3000 <= cp && cp <= 0x9FFF) || (0xF900 <= cp && cp <= 0xFAFF) || (0xFF01 <= cp
        && cp <= 0xFF60) || (0x2_0000 <= cp && cp <= 0x2_A6DF) {
        Script::SimplifiedChinese
    } else if (0xE000 <= cp && cp <= 0xEFFF) || (0xF100 <= cp && cp <= 0xF8FF) {
        Script::Pua
    } else {
        Script::Latin
    }
}

/// Code points measured as full-width: CJK symbols through unified
/// ideographs, compatibility ideographs, fullwidth forms, Extension B,
/// Hangul syllables and the Hangul Jamo blocks.
pub open spec fn cjk_cp(cp: u32) -> bool {
    in_range(cp, 0x3000, 0x9FFF) || in_range(cp, 0xF900, 0xFAFF) || in_range(cp, 0xFF01, 0xFF60)
        || in_range(cp, 0x20000, 0x2A6DF) || in_range(cp, 0xAC00, 0xD7A3) || in_range(
        cp,
        0x1100,
        0x11FF,
    ) || in_range(cp, 0xA960, 0xA97F) || in_range(cp, 0xD7B0, 0xD7FF)
}

/// Whether `code_point` is in a CJK / Hangul block treated as wide.
pub fn is_cjk_codepoint(code_point: u32) -> (r: bool)
    ensures
        r == cjk_cp(code_point),
{
    let cp = code_point;
    (0x3000 <= cp && cp <= 0x9FFF) || (0xF900 <= cp && cp <= 0xFAFF) || (0xFF01 <= cp && cp
        <= 0xFF60) || (0x20000 <= cp && cp <= 0x2A6DF) || (0xAC00 <= cp && cp <= 0xD7A3) || (0x1100
        <= cp && cp <= 0x11FF) || (0xA960 <= cp && cp <= 0xA97F) || (0xD7B0 <= cp && cp <= 0xD7FF)
}

/// Whether `code_point` is halfwidth Katakana (`U+FF61..U+FF9F`) or
/// halfwidth Hangul (`U+FFA0..U+FFDC`).
pub fn is_halfwidth_cjk_codepoint(code_point: u32) -> (r: bool)
    ensures
        r == (in_range(code_point, 0xFF61, 0xFF9F) || in_range(code_point, 0xFFA0, 0xFFDC)),
{
    (0xFF61 <= code_point && code_point <= 0xFF9F) || (0xFFA0 <= code_point && code_point <= 0xFFDC)
}

/// Whether `code_point` is in the BMP Private Use Area `U+E000..U+F8FF`.
pub fn is_pua_codepoint(code_point: u32) -> (r: bool)
    ensures
        r == in_range(code_point, 0xE000, 0xF8FF),
{
    0xE000 <= code_point && code_point <= 0xF8FF
}

/// Whether `code_point` is in the Symbol / Wingdings PUA `U+F000..U+F0FF`.
pub fn is_sym_pua_codepoint(code_point: u32) -> (r: bool)
    ensures
        r == in_range(code_point, 0xF000, 0xF0FF),
{
    0xF000 <= code_point && code_point <= 0xF0FF
}

/// Arabic, Hebrew, Thai and Indic blocks that need complex shaping.
pub open spec fn complex_script_cp(cp: u32) -> bool {
    in_range(cp, 0x0600, 0x06FF) || in_range(cp, 0x0750, 0x077F) || in_range(cp, 0xFB50, 0xFDFF)
        || in_range(cp, 0xFE70, 0xFEFF) || in_range(cp, 0x0590, 0x05FF) || in_range(
        cp,
        0x0E00,
        0x0E7F,
    ) || in_range(cp, 0x0900, 0x097F) || in_range(cp, 0x0980, 0x09FF) || in_range(
        cp,
        0x0A80,
        0x0AFF,
    ) || in_range(cp, 0x0B80, 0x0BFF) || in_range(cp, 0x0C00, 0x0C7F) || in_range(
        cp,
        0x0C80,
        0x0CFF,
    ) || in_range(cp, 0x0D00, 0x0D7F)
}

/// Whether `code_point` needs complex shaping (Arabic, Hebrew, Thai,
/// Devanagari, Bengali, Gujarati, Tamil, Telugu, Kannada, Malayalam).
pub fn is_complex_script_codepoint(code_point: u32) -> (r: bool)
    ensures
        r == complex_script_cp(code_point),
{
    let cp = code_point;
    (0x0600 <= cp && cp <= 0x06FF) || (0x0750 <= cp && cp <= 0x077F) || (0xFB50 <= cp && cp
        <= 0xFDFF) || (0xFE70 <= cp && cp <= 0xFEFF) || (0x0590 <= cp && cp <= 0x05FF) || (0x0E00
        <= cp && cp <= 0x0E7F) || (0x0900 <= cp && cp <= 0x097F) || (0x0980 <= cp && cp <= 0x09FF)
        || (0x0A80 <= cp && cp <= 0x0AFF) || (0x0B80 <= cp && cp <= 0x0BFF) || (0x0C00 <= cp && cp
        <= 0x0C7F) || (0x0C80 <= cp && cp <= 0x0CFF) || (0x0D00 <= cp && cp <= 0x0D7F)
}

/// The Latin glyphs measured as narrow: space `! , - . : ; i j l 1 | ' ( ) [ ] { }`.
pub open spec fn narrow_latin_cp(cp: u32) -> bool {
    cp == 0x20 || cp == 0x21 || cp == 0x2C || cp == 0x2D || cp == 0x2E || cp == 0x3A || cp == 0x3B
        || cp == 0x69 || cp == 0x6A || cp == 0x6C || cp == 0x31 || cp == 0x7C || cp == 0x27 || cp
        == 0x28 || cp == 0x29 || cp == 0x5B || cp == 0x5D || cp == 0x7B || cp == 0x7D
}

/// Whether `cp` is one of the narrow Latin glyphs.
pub fn is_narrow_latin(cp: u32) -> (r: bool)
    ensures
        r == narrow_latin_cp(cp),
{
    cp == 0x20 || cp == 0x21 || cp == 0x2C || cp == 0x2D || cp == 0x2E || cp == 0x3A || cp == 0x3B
        || cp == 0x69 || cp == 0x6A || cp == 0x6C || cp == 0x31 || cp == 0x7C || cp == 0x27 || cp
        == 0x28 || cp == 0x29 || cp == 0x5B || cp == 0x5D || cp == 0x7B || cp == 0x7D
}

/// The text and script of each part.
pub open spec fn parts_view(parts: Seq<TextPart>) -> Seq<(Seq<char>, Script)> {
    parts.map_values(|p: TextPart| (p.text@, p.script))
}

/// `parts` cut `text` into nonempty runs, each run's characters all of
/// the run's script, neighbouring runs of different scripts.
pub open spec fn is_script_split(text: Seq<char>, parts: Seq<(Seq<char>, Script)>) -> bool {
    &&& concat_chars(parts.map_values(|p: (Seq<char>, Script)| p.0)) == text
    &&& forall|i: int| 0 <= i < parts.len() ==> (#[trigger] parts[i]).0.len() > 0
    &&& forall|i: int, j: int|
        0 <= i < parts.len() && 0 <= j < parts[i].0.len() ==> script_of(
            (#[trigger] parts[i].0[j]) as u32,
        ) == parts[i].1
    &&& forall|i: int| 0 <= i < parts.len() - 1 ==> (#[trigger] parts[i]).1 != parts[i + 1].1
}

/// Splits `text` into maximal runs of one [`Script`]; empty input gives
/// no parts.
pub fn split_by_script(text: &str) -> (r: Vec<TextPart>)
    ensures
        is_script_split(text@, parts_view(r@)),
{
    let mut parts: Vec<TextPart> = Vec::new();
    let mut current = String::new();
    let mut current_script = Script::Latin;
    let mut has_current = false;
    let chars = str_chars(text);
    let mut k: usize = 0;
    while k < chars.len()
        invariant
            k <= chars.len(),
            chars@ == text@,
            has_current == (current@.len() > 0),
            is_script_split(
                concat_chars(
                    parts_view(parts@).map_values(|p: (Seq<char>, Script)| p.0),
                ),
                parts_view(parts@),
            ),
            concat_chars(parts_view(parts@).map_values(|p: (Seq<char>, Script)| p.0)) + current@
                == chars@.take(k as int),
            forall|j: int| 0 <= j < current@.len() ==> script_of(#[trigger] current@[j] as u32)
                == current_script,
            has_current && parts@.len() > 0 ==> parts@.last().script != current_script,
            !has_current ==> parts@.len() == 0,
        decreases chars.len() - k,
    {
        let ch = chars[k];
        let script = classify_script(ch as u32);
        let ghost prefix = chars@.take(k as int);
        if has_current && script != current_script {
            let ghost old_parts = parts_view(parts@);
            let part = TextPart { text: current, script: current_script };
            parts.push(part);
            current = String::new();
            proof {
                let pv = parts_view(parts@);
                assert(pv =~= old_parts.push((part.text@, current_script)));
                let texts = pv.map_values(|p: (Seq<char>, Script)| p.0);
                assert(texts.drop_last() =~= old_parts.map_values(|p: (Seq<char>, Script)| p.0));
                assert(is_script_split(concat_chars(texts), pv)) by {
                    assert forall|i: int, j: int|
                        0 <= i < pv.len() && 0 <= j < pv[i].0.len() implies script_of(
                        (#[trigger] pv[i].0[j]) as u32,
                    ) == pv[i].1 by {
                        if i < old_parts.len() {
                            assert(pv[i] == old_parts[i]);
                        }
                    }
                    assert forall|i: int| 0 <= i < pv.len() - 1 implies (#[trigger] pv[i]).1
                        != pv[i + 1].1 by {
                        if i < old_parts.len() - 1 {
                            assert(pv[i] == old_parts[i]);
                            assert(pv[i + 1] == old_parts[i + 1]);
                        }
                    }
                }
            }
        }
        let ghost cur_before = current@;
        push_char(&mut current, ch);
        current_script = script;
        has_current = true;
        k = k + 1;
        proof {
            assert(chars@.take(k as int) =~= prefix.push(ch));
            assert forall|j: int| 0 <= j < current@.len() implies script_of(
                #[trigger] current@[j] as u32,
            ) == current_script by {
                if j < cur_before.len() {
                    assert(current@[j] == cur_before[j]);
                }
            }
        }
    }
    proof {
        assert(chars@.take(k as int) =~= text@);
    }
    if has_current {
        let ghost old_parts = parts_view(parts@);
        let part = TextPart { text: current, script: current_script };
        parts.push(part);
        proof {
            let pv = parts_view(parts@);
            assert(pv =~= old_parts.push((part.text@, current_script)));
            let texts = pv.map_values(|p: (Seq<char>, Script)| p.0);
            assert(texts.drop_last() =~= old_parts.map_values(|p: (Seq<char>, Script)| p.0));
            assert forall|i: int, j: int|
                0 <= i < pv.len() && 0 <= j < pv[i].0.len() implies script_of(
                (#[trigger] pv[i].0[j]) as u32,
            ) == pv[i].1 by {
                if i < old_parts.len() {
                    assert(pv[i] == old_parts[i]);
                }
            }
            assert forall|i: int| 0 <= i < pv.len() - 1 implies (#[trigger] pv[i]).1 != pv[i
                + 1].1 by {
                if i < old_parts.len() - 1 {
                    assert(pv[i] == old_parts[i]);
                    assert(pv[i + 1] == old_parts[i + 1]);
                }
            }
        }
    } else {
        assert(current@ =~= Seq::<char>::empty());
        assert(concat_chars(parts_view(parts@).map_values(|p: (Seq<char>, Script)| p.0))
            =~= text@);
    }
    parts
}

/// The concatenation of nonempty parts is at least as long as its last
/// part, and drops it when the last part is dropped.
proof fn lemma_last_part(text: Seq<char>, parts: Seq<(Seq<char>, Script)>)
    requires
        is_script_split(text, parts),
        parts.len() > 0,
    ensures
        ({
            let rest = parts.drop_last();
            let prefix = concat_chars(rest.map_values(|p: (Seq<char>, Script)| p.0));
            &&& text == prefix + parts.last().0
            &&& is_script_split(prefix, rest)
            &&& parts.last().0.len() > 0
            &&& parts.last().1 == script_of(text.last() as u32)
            &&& rest.len() > 0 ==> prefix.len() > 0 && script_of(prefix.last() as u32) != parts.last().1
        }),
    decreases parts.len(),
{
    let rest = parts.drop_last();
    let texts = parts.map_values(|p: (Seq<char>, Script)| p.0);
    assert(texts.drop_last() =~= rest.map_values(|p: (Seq<char>, Script)| p.0));
    let prefix = concat_chars(rest.map_values(|p: (Seq<char>, Script)| p.0));
    let last = parts.last().0;
    assert(parts[parts.len() - 1].0.len() > 0);
    assert(text == prefix + last);
    assert(text.last() == last[last.len() - 1]);
    assert(script_of(parts[parts.len() - 1].0[last.len() - 1] as u32) == parts[parts.len() - 1].1);
    assert forall|i: int, j: int| 0 <= i < rest.len() && 0 <= j < rest[i].0.len() implies script_of(
        (#[trigger] rest[i].0[j]) as u32,
    ) == rest[i].1 by {
        assert(rest[i] == parts[i]);
        assert(script_of(parts[i].0[j] as u32) == parts[i].1);
    }
    assert forall|i: int| 0 <= i < rest.len() implies (#[trigger] rest[i]).0.len() > 0 by {
        assert(rest[i] == parts[i]);
    }
    assert forall|i: int| 0 <= i < rest.len() - 1 implies (#[trigger] rest[i]).1 != rest[i + 1].1 by {
        assert(rest[i] == parts[i]);
        assert(rest[i + 1] == parts[i + 1]);
    }
    if rest.len() > 0 {
        lemma_last_part(prefix, rest);
        assert(rest[rest.len() - 1] == parts[parts.len() - 2]);
        assert(parts[parts.len() - 2].1 != parts[parts.len() - 1].1);
    }
}

/// Two suffixes of one text, each all of one script and each preceded
/// (if at all) by a character of another script, are the same suffix.
proof fn lemma_maximal_suffix(
    text: Seq<char>,
    pa: Seq<char>,
    a: Seq<char>,
    pb: Seq<char>,
    b: Seq<char>,
    s: Script,
)
    requires
        text == pa + a,
        text == pb + b,
        forall|j: int| 0 <= j < a.len() ==> script_of(#[trigger] a[j] as u32) == s,
        forall|j: int| 0 <= j < b.len() ==> script_of(#[trigger] b[j] as u32) == s,
        pa.len() > 0 ==> script_of(pa.last() as u32) != s,
        pb.len() > 0 ==> script_of(pb.last() as u32) != s,
    ensures
        a == b,
        pa == pb,
{
    if a.len() < b.len() {
        let k = text.len() - a.len() - 1;
        assert(pa.last() == text[k]);
        assert(text[k] == b[k - pb.len()]);
    } else if b.len() < a.len() {
        let k = text.len() - b.len() - 1;
        assert(pb.last() == text[k]);
        assert(text[k] == a[k - pa.len()]);
    }
    assert(a =~= text.subrange(pa.len() as int, text.len() as int));
    assert(b =~= text.subrange(pb.len() as int, text.len() as int));
    assert(pa =~= text.subrange(0, pa.len() as int));
    assert(pb =~= text.subrange(0, pb.len() as int));
}

/// A text has only one split into maximal runs of one script: any two
/// splits of it part for part agree, so [`split_by_script`]'s result is
/// determined by its contract.
pub proof fn law_script_split_unique(
    text: Seq<char>,
    p: Seq<(Seq<char>, Script)>,
    q: Seq<(Seq<char>, Script)>,
)
    requires
        is_script_split(text, p),
        is_script_split(text, q),
    ensures
        p == q,
    decreases p.len(),
{
    if p.len() == 0 {
        assert(p.map_values(|x: (Seq<char>, Script)| x.0) =~= Seq::<Seq<char>>::empty());
        assert(text.len() == 0);
        if q.len() > 0 {
            lemma_last_part(text, q);
        }
        assert(p =~= q);
    } else {
        lemma_last_part(text, p);
        if q.len() == 0 {
            assert(q.map_values(|x: (Seq<char>, Script)| x.0) =~= Seq::<Seq<char>>::empty());
            assert(false);
        } else {
            lemma_last_part(text, q);
            let rp = p.drop_last();
            let rq = q.drop_last();
            let pp = concat_chars(rp.map_values(|x: (Seq<char>, Script)| x.0));
            let pq = concat_chars(rq.map_values(|x: (Seq<char>, Script)| x.0));
            let s = p.last().1;
            assert(p[p.len() - 1] == p.last());
            assert(q[q.len() - 1] == q.last());
            assert forall|j: int| 0 <= j < p.last().0.len() implies script_of(
                #[trigger] p.last().0[j] as u32,
            ) == s by {
                assert(script_of(p[p.len() - 1].0[j] as u32) == p[p.len() - 1].1);
            }
            assert forall|j: int| 0 <= j < q.last().0.len() implies script_of(
                #[trigger] q.last().0[j] as u32,
            ) == s by {
                assert(script_of(q[q.len() - 1].0[j] as u32) == q[q.len() - 1].1);
            }
            if pp.len() > 0 && rp.len() == 0 {
                assert(rp.map_values(|x: (Seq<char>, Script)| x.0) =~= Seq::<Seq<char>>::empty());
            }
            if pq.len() > 0 && rq.len() == 0 {
                assert(rq.map_values(|x: (Seq<char>, Script)| x.0) =~= Seq::<Seq<char>>::empty());
            }
            lemma_maximal_suffix(text, pp, p.last().0, pq, q.last().0, s);
            law_script_split_unique(pp, rp, rq);
            assert(p =~= rp.push(p.last()));
            assert(q =~= rq.push(q.last()));
        }
    }
}

/// Every Hangul block classifies as Korean: Hangul Jamo
/// (`U+1100..U+11FF`), Hangul Compatibility Jamo (`U+3130..U+318F`),
/// Jamo Extended-A (`U+A960..U+A97F`), the syllables
/// (`U+AC00..U+D7A3`), Jamo Extended-B (`U+D7B0..U+D7FF`) and the
/// halfwidth Hangul forms (`U+FFA0..U+FFDC`).
pub proof fn law_hangul_is_korean(cp: u32)
    requires
        (0x1100 <= cp <= 0x11FF) || (0x3130 <= cp <= 0x318F) || (0xA960 <= cp <= 0xA97F) || (0xAC00
            <= cp <= 0xD7A3) || (0xD7B0 <= cp <= 0xD7FF) || (0xFFA0 <= cp <= 0xFFDC),
    ensures
        script_of(cp) == Script::Korean,
{
}

/// Hiragana (`U+3040..U+309F`), Katakana (`U+30A0..U+30FF`) and the
/// Katakana Phonetic Extensions (`U+31F0..U+31FF`) classify as Japanese.
pub proof fn law_kana_is_japanese(cp: u32)
    requires
        (0x3040 <= cp <= 0x309F) || (0x30A0 <= cp <= 0x30FF) || (0x31F0 <= cp <= 0x31FF),
    ensures
        script_of(cp) == Script::Japanese,
{
}

/// CJK symbols and punctuation (`U+3000..U+303F`), the CJK Unified
/// Ideographs (`U+4E00..U+9FFF`), the compatibility ideographs
/// (`U+F900..U+FAFF`), the fullwidth forms (`U+FF01..U+FF60`) and
/// Extension B (`U+20000..U+2A6DF`) default to Simplified Chinese.
pub proof fn law_ideographs_are_simplified_chinese(cp: u32)
    requires
        (0x3000 <= cp <= 0x303F) || (0x4E00 <= cp <= 0x9FFF) || (0xF900 <= cp <= 0xFAFF) || (0xFF01
            <= cp <= 0xFF60) || (0x2_0000 <= cp <= 0x2_A6DF),
    ensures
        script_of(cp) == Script::SimplifiedChinese,
{
}

/// ASCII, and the symbol-font range `U+F000..U+F0FF`, classify as Latin;
/// the rest of the Private Use Area as PUA.
pub proof fn law_ascii_latin_and_private_use(cp: u32)
    ensures
        cp < 0x80 ==> script_of(cp) == Script::Latin,
        0xF000 <= cp <= 0xF0FF ==> script_of(cp) == Script::Latin,
        (0xE000 <= cp <= 0xEFFF) || (0xF100 <= cp <= 0xF8FF) ==> script_of(cp) == Script::Pua,
{
}

/// In a split of any text into script runs, a run that holds a Hangul
/// character is a Korean run.
pub proof fn law_runs_with_hangul_are_korean(text: Seq<char>, parts: Seq<(Seq<char>, Script)>)
    requires
        is_script_split(text, parts),
    ensures
        forall|i: int, j: int|
            0 <= i < parts.len() && 0 <= j < parts[i].0.len() && ({
                let cp = (#[trigger] parts[i].0[j]) as u32;
                (0x1100 <= cp <= 0x11FF) || (0x3130 <= cp <= 0x318F) || (0xA960 <= cp <= 0xA97F)
                    || (0xAC00 <= cp <= 0xD7A3) || (0xD7B0 <= cp <= 0xD7FF) || (0xFFA0 <= cp
                    <= 0xFFDC)
            }) ==> parts[i].1 == Script::Korean,
{
}

} // verus!
