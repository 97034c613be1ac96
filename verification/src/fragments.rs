//! Breaking paragraph text into wrap fragments: whitespace runs, single
//! CJK characters, and runs of other characters.
use vstd::prelude::*;

use crate::script::{cjk_cp, is_cjk_codepoint};
use crate::strs::{concat_chars, push_char, str_chars};

verus! {

/// Space, tab, line feed or carriage return.
pub open spec fn ws_cp(cp: u32) -> bool {
    cp == 0x20 || cp == 0x09 || cp == 0x0A || cp == 0x0D
}

/// Whether `cp` is a wrap whitespace (space, tab, LF, CR).
pub fn is_whitespace(cp: u32) -> (r: bool)
    ensures
        r == ws_cp(cp),
{
    cp == 0x20 || cp == 0x09 || cp == 0x0A || cp == 0x0D
}

/// Whether every character of `text` is wrap whitespace (true for the
/// empty string).
pub fn is_space_only(text: &str) -> (r: bool)
    ensures
        r == (forall|i: int| 0 <= i < text@.len() ==> ws_cp(#[trigger] text@[i] as u32)),
{
    let chars = str_chars(text);
    let mut i: usize = 0;
    while i < chars.len()
        invariant
            i <= chars.len(),
            chars@ == text@,
            forall|j: int| 0 <= j < i ==> ws_cp(#[trigger] chars@[j] as u32),
        decreases chars.len() - i,
    {
        if !is_whitespace(chars[i] as u32) {
            return false;
        }
        i = i + 1;
    }
    true
}

/// Fragment kind of a character: 0 whitespace, 1 CJK, 2 other.
pub open spec fn frag_kind(c: char) -> int {
    if ws_cp(c as u32) {
        0
    } else if cjk_cp(c as u32) {
        1
    } else {
        2
    }
}

/// The text and breakable flag of each fragment.
pub open spec fn frags_view(f: Seq<(String, bool)>) -> Seq<(Seq<char>, bool)> {
    f.map_values(|p: (String, bool)| (p.0@, p.1))
}

/// `frags` cut `text` into nonempty fragments of one kind each: every
/// CJK character alone, whitespace and other characters in maximal
/// runs; a fragment is breakable unless it is a run of other characters.
pub open spec fn is_fragment_split(text: Seq<char>, frags: Seq<(Seq<char>, bool)>) -> bool {
    &&& concat_chars(frags.map_values(|p: (Seq<char>, bool)| p.0)) == text
    &&& forall|i: int| 0 <= i < frags.len() ==> (#[trigger] frags[i]).0.len() > 0
    &&& forall|i: int, j: int|
        0 <= i < frags.len() && 0 <= j < frags[i].0.len() ==> frag_kind(#[trigger] frags[i].0[j])
            == frag_kind(frags[i].0[0])
    &&& forall|i: int|
        0 <= i < frags.len() && frag_kind((#[trigger] frags[i]).0[0]) == 1 ==> frags[i].0.len()
            == 1
    &&& forall|i: int|
        0 <= i < frags.len() - 1 && frag_kind((#[trigger] frags[i]).0[0]) != 1 ==> frag_kind(
            frags[i].0[0],
        ) != frag_kind(frags[i + 1].0[0])
    &&& forall|i: int| 0 <= i < frags.len() ==> (#[trigger] frags[i]).1 == (frag_kind(frags[i].0[0]) != 2)
}

/// The fragments of `s`, built a character at a time: a CJK character
/// always starts a fragment of its own; any other character extends the
/// last fragment when it is of the same kind, and starts one otherwise.
pub open spec fn fragments_of(s: Seq<char>) -> Seq<(Seq<char>, bool)>
    decreases s.len(),
{
    if s.len() == 0 {
        Seq::empty()
    } else {
        let f = fragments_of(s.drop_last());
        let c = s.last();
        let k = frag_kind(c);
        if k != 1 && f.len() > 0 && frag_kind(f.last().0[0]) == k {
            f.update(f.len() - 1, (f.last().0.push(c), f.last().1))
        } else {
            f.push((seq![c], k != 2))
        }
    }
}

/// The fragments so far: those emitted and the one being built.
pub open spec fn pending_fragments(out: Seq<(Seq<char>, bool)>, current: Seq<char>, kind: u8) -> Seq<
    (Seq<char>, bool),
> {
    if current.len() > 0 {
        out.push((current, kind == 0))
    } else {
        out
    }
}

proof fn lemma_push_frag(old_f: Seq<(Seq<char>, bool)>, text: Seq<char>, piece: Seq<char>, b: bool)
    requires
        is_fragment_split(text, old_f),
        piece.len() > 0,
        forall|j: int| 0 <= j < piece.len() ==> frag_kind(#[trigger] piece[j]) == frag_kind(piece[0]),
        frag_kind(piece[0]) == 1 ==> piece.len() == 1,
        old_f.len() > 0 && frag_kind(old_f.last().0[0]) != 1 ==> frag_kind(old_f.last().0[0])
            != frag_kind(piece[0]),
        b == (frag_kind(piece[0]) != 2),
    ensures
        is_fragment_split(text + piece, old_f.push((piece, b))),
{
    let f = old_f.push((piece, b));
    let texts = f.map_values(|p: (Seq<char>, bool)| p.0);
    assert(texts.drop_last() =~= old_f.map_values(|p: (Seq<char>, bool)| p.0));
    assert forall|i: int, j: int|
        0 <= i < f.len() && 0 <= j < f[i].0.len() implies frag_kind(#[trigger] f[i].0[j])
        == frag_kind(f[i].0[0]) by {
        if i < old_f.len() {
            assert(f[i] == old_f[i]);
        }
    }
    assert forall|i: int|
        0 <= i < f.len() - 1 && frag_kind((#[trigger] f[i]).0[0]) != 1 implies frag_kind(
        f[i].0[0],
    ) != frag_kind(f[i + 1].0[0]) by {
        if i < old_f.len() - 1 {
            assert(f[i] == old_f[i]);
            assert(f[i + 1] == old_f[i + 1]);
        }
    }
    assert forall|i: int| 0 <= i < f.len() implies (#[trigger] f[i]).0.len() > 0 by {
        if i < old_f.len() {
            assert(f[i] == old_f[i]);
        }
    }
    assert forall|i: int|
        0 <= i < f.len() && frag_kind((#[trigger] f[i]).0[0]) == 1 implies f[i].0.len() == 1 by {
        if i < old_f.len() {
            assert(f[i] == old_f[i]);
        }
    }
    assert forall|i: int| 0 <= i < f.len() implies (#[trigger] f[i]).1 == (frag_kind(f[i].0[0])
        != 2) by {
        if i < old_f.len() {
            assert(f[i] == old_f[i]);
        }
    }
}

/// Splits `text` into wrap fragments with their breakable flags (see
/// [`is_fragment_split`]).
pub fn split_text_into_fragments(text: &str) -> (r: Vec<(String, bool)>)
    ensures
        is_fragment_split(text@, frags_view(r@)),
        frags_view(r@) == fragments_of(text@),
{
    let chars = str_chars(text);
    let mut out: Vec<(String, bool)> = Vec::new();
    let mut current = String::new();
    // Kind of `current`: 0 whitespace, 2 other (a CJK character is never
    // held in `current`).
    let mut current_kind: u8 = 0;
    let mut k: usize = 0;
    while k < chars.len()
        invariant
            k <= chars.len(),
            chars@ == text@,
            current_kind == 0 || current_kind == 2,
            is_fragment_split(
                concat_chars(frags_view(out@).map_values(|p: (Seq<char>, bool)| p.0)),
                frags_view(out@),
            ),
            concat_chars(frags_view(out@).map_values(|p: (Seq<char>, bool)| p.0)) + current@
                == chars@.take(k as int),
            forall|j: int| 0 <= j < current@.len() ==> frag_kind(#[trigger] current@[j])
                == current_kind,
            current@.len() > 0 && out@.len() > 0 && frag_kind(frags_view(out@).last().0[0]) != 1
                ==> frag_kind(frags_view(out@).last().0[0]) != current_kind,
            current@.len() == 0 && out@.len() > 0 ==> frag_kind(frags_view(out@).last().0[0]) == 1,
            pending_fragments(frags_view(out@), current@, current_kind) == fragments_of(
                chars@.take(k as int),
            ),
            forall|i: int| 0 <= i < out@.len() ==> (#[trigger] frags_view(out@)[i]).0.len() > 0,
        decreases chars.len() - k,
    {
        let ch = chars[k];
        let cp = ch as u32;
        let ghost prefix = chars@.take(k as int);
        let ghost fv0 = frags_view(out@);
        let ghost cur0 = current@;
        let ghost kind0 = current_kind;
        proof {
            assert(chars@.take(k + 1).drop_last() =~= prefix);
            assert(chars@.take(k + 1).last() == ch);
        }
        if is_whitespace(cp) {
            if !current.as_str().is_empty() && current_kind != 0 {
                let ghost piece = current@;
                out.push((current, false));
                current = String::new();
                proof {
                    assert(frags_view(out@) =~= fv0.push((piece, false)));
                    lemma_push_frag(fv0, concat_chars(fv0.map_values(|p: (Seq<char>, bool)| p.0)), piece, false);
                }
            }
            let ghost cur_before = current@;
            push_char(&mut current, ch);
            current_kind = 0;
            proof {
                assert forall|j: int| 0 <= j < current@.len() implies frag_kind(
                    #[trigger] current@[j],
                ) == current_kind by {
                    if j < cur_before.len() {
                        assert(current@[j] == cur_before[j]);
                    }
                }
            }
        } else if is_cjk_codepoint(cp) {
            if !current.as_str().is_empty() {
                let ghost piece = current@;
                let b = current_kind == 0;
                out.push((current, b));
                current = String::new();
                proof {
                    assert(frags_view(out@) =~= fv0.push((piece, b)));
                    lemma_push_frag(fv0, concat_chars(fv0.map_values(|p: (Seq<char>, bool)| p.0)), piece, b);
                }
            }
            let ghost fv1 = frags_view(out@);
            let mut single = String::new();
            push_char(&mut single, ch);
            out.push((single, true));
            proof {
                assert(single@ =~= seq![ch]);
                assert(frags_view(out@) =~= fv1.push((seq![ch], true)));
                lemma_push_frag(fv1, concat_chars(fv1.map_values(|p: (Seq<char>, bool)| p.0)), seq![ch], true);
            }
            current_kind = 0;
        } else {
            if !current.as_str().is_empty() && current_kind != 2 {
                let ghost piece = current@;
                out.push((current, true));
                current = String::new();
                proof {
                    assert(frags_view(out@) =~= fv0.push((piece, true)));
                    lemma_push_frag(fv0, concat_chars(fv0.map_values(|p: (Seq<char>, bool)| p.0)), piece, true);
                }
            }
            let ghost cur_before = current@;
            push_char(&mut current, ch);
            current_kind = 2;
            proof {
                assert forall|j: int| 0 <= j < current@.len() implies frag_kind(
                    #[trigger] current@[j],
                ) == current_kind by {
                    if j < cur_before.len() {
                        assert(current@[j] == cur_before[j]);
                    }
                }
            }
        }
        proof {
            let p = pending_fragments(fv0, cur0, kind0);
            let fvn = frags_view(out@);
            if cur0.len() > 0 {
                assert(p.last() == (cur0, kind0 == 0));
                assert(p.last().0[0] == cur0[0]);
            }
            if frag_kind(ch) != 1 && cur0.len() > 0 && frag_kind(cur0[0]) == frag_kind(ch) {
                assert(current@ =~= cur0.push(ch));
                assert(pending_fragments(fvn, current@, current_kind) =~= p.update(
                    p.len() - 1,
                    (p.last().0.push(ch), p.last().1),
                ));
            } else if frag_kind(ch) == 1 {
                assert(pending_fragments(fvn, current@, current_kind) =~= p.push((seq![ch], true)));
            } else {
                assert(current@ =~= seq![ch]);
                if cur0.len() == 0 && fv0.len() > 0 {
                    assert(p.last() == fv0.last());
                }
                assert(pending_fragments(fvn, current@, current_kind) =~= p.push(
                    (seq![ch], frag_kind(ch) != 2),
                ));
            }
        }
        k = k + 1;
        assert(chars@.take(k as int) =~= prefix.push(ch));
    }
    assert(chars@.take(k as int) =~= text@);
    if !current.as_str().is_empty() {
        let ghost fv0 = frags_view(out@);
        let ghost piece = current@;
        let b = current_kind == 0;
        out.push((current, b));
        proof {
            assert(frags_view(out@) =~= fv0.push((piece, b)));
            lemma_push_frag(fv0, concat_chars(fv0.map_values(|p: (Seq<char>, bool)| p.0)), piece, b);
        }
    } else {
        assert(current@ =~= Seq::<char>::empty());
        assert(concat_chars(frags_view(out@).map_values(|p: (Seq<char>, bool)| p.0)) =~= text@);
    }
    out
}

} // verus!
