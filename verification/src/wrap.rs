//! The text side of greedy paragraph wrapping: cutting runs into
//! tokens, merging a line's tokens into segments, and trimming a line's
//! trailing whitespace. Widths are measured and lines laid out by the
//! caller.
use vstd::prelude::*;

use crate::fragments::{frag_kind, fragments_of, split_text_into_fragments};
use crate::strs::{concat_chars, push_chars, str_chars, string_from_chars};

verus! {

/// A token of a paragraph, before measuring: a fragment of one run's
/// text, or a forced line break at a `\n`.
#[derive(Clone, Debug, PartialEq, Eq)]
pub struct TokenShape {
    /// Fragment text; empty for a forced break.
    pub text: String,
    /// Index of the run the token comes from.
    pub run_index: usize,
    /// A line may break at this token.
    pub breakable: bool,
    /// The token ends the line.
    pub force_break: bool,
}

/// Plain-value view of a token.
pub struct TokenView {
    pub text: Seq<char>,
    pub run_index: nat,
    pub breakable: bool,
    pub force_break: bool,
}

/// The view of each token.
pub open spec fn tokens_view(ts: Seq<TokenShape>) -> Seq<TokenView> {
    ts.map_values(
        |t: TokenShape|
            TokenView {
                text: t.text@,
                run_index: t.run_index as nat,
                breakable: t.breakable,
                force_break: t.force_break,
            },
    )
}

/// The pieces of `s` between `\n` characters (one piece more than there
/// are newlines).
pub open spec fn split_newlines(s: Seq<char>) -> Seq<Seq<char>>
    decreases s.len(),
{
    if s.len() == 0 {
        seq![Seq::<char>::empty()]
    } else {
        let p = split_newlines(s.drop_last());
        if s.last() == '\n' {
            p.push(Seq::empty())
        } else {
            p.update(p.len() - 1, p.last().push(s.last()))
        }
    }
}

/// The fragment tokens of one piece of run `ri`.
pub open spec fn piece_tokens(ri: nat, piece: Seq<char>) -> Seq<TokenView> {
    fragments_of(piece).map_values(
        |f: (Seq<char>, bool)| TokenView { text: f.0, run_index: ri, breakable: f.1, force_break: false },
    )
}

/// A forced break in run `ri`.
pub open spec fn break_token(ri: nat) -> TokenView {
    TokenView { text: Seq::empty(), run_index: ri, breakable: true, force_break: true }
}

/// The tokens of the pieces of run `ri`: each piece's fragments, with a
/// forced break between consecutive pieces.
pub open spec fn pieces_tokens(ri: nat, pieces: Seq<Seq<char>>) -> Seq<TokenView>
    decreases pieces.len(),
{
    if pieces.len() == 0 {
        Seq::empty()
    } else {
        pieces_tokens(ri, pieces.drop_last()) + (if pieces.len() > 1 {
            seq![break_token(ri)]
        } else {
            Seq::empty()
        }) + piece_tokens(ri, pieces.last())
    }
}

/// The tokens of the runs `texts`, an empty run giving none.
pub open spec fn runs_tokens(texts: Seq<Seq<char>>) -> Seq<TokenView>
    decreases texts.len(),
{
    if texts.len() == 0 {
        Seq::empty()
    } else {
        let i = (texts.len() - 1) as nat;
        runs_tokens(texts.drop_last()) + (if texts.last().len() == 0 {
            Seq::empty()
        } else {
            pieces_tokens(i, split_newlines(texts.last()))
        })
    }
}

/// The tokens of a paragraph: its runs' tokens, where a line cannot
/// break at the very first token unless it is a forced break.
pub open spec fn paragraph_tokens(texts: Seq<Seq<char>>) -> Seq<TokenView> {
    let raw = runs_tokens(texts);
    if raw.len() > 0 && !raw[0].force_break {
        raw.update(0, TokenView { breakable: false, ..raw[0] })
    } else {
        raw
    }
}

/// The texts of the runs.
pub open spec fn strings_view(v: Seq<String>) -> Seq<Seq<char>> {
    v.map_values(|s: String| s@)
}

/// What a run has emitted once the pieces `p` are known, the last one
/// still being read: the tokens of the earlier pieces and, when there
/// are earlier pieces, the break before the last one.
pub open spec fn emitted_before(ri: nat, p: Seq<Seq<char>>) -> Seq<TokenView> {
    pieces_tokens(ri, p.drop_last()) + (if p.len() > 1 {
        seq![break_token(ri)]
    } else {
        Seq::empty()
    })
}

proof fn lemma_split_newlines_nonempty(s: Seq<char>)
    ensures
        split_newlines(s).len() >= 1,
    decreases s.len(),
{
    if s.len() > 0 {
        lemma_split_newlines_nonempty(s.drop_last());
    }
}

/// Appends the fragment tokens of one piece of run `ri`.
fn push_piece(out: &mut Vec<TokenShape>, piece: &[char], ri: usize)
    ensures
        tokens_view(final(out)@) == tokens_view(old(out)@) + piece_tokens(ri as nat, piece@),
{
    let s = string_from_chars(piece);
    let frags = split_text_into_fragments(s.as_str());
    let ghost pt = piece_tokens(ri as nat, piece@);
    let mut i: usize = 0;
    assert(pt.take(0) =~= Seq::<TokenView>::empty());
    assert(tokens_view(old(out)@) + pt.take(0) =~= tokens_view(old(out)@));
    while i < frags.len()
        invariant
            i <= frags.len(),
            frags@.len() == pt.len(),
            pt == piece_tokens(ri as nat, piece@),
            forall|j: int| 0 <= j < frags@.len() ==> (#[trigger] frags@[j]).0@ == fragments_of(piece@)[j].0
                && frags@[j].1 == fragments_of(piece@)[j].1,
            tokens_view(out@) == tokens_view(old(out)@) + pt.take(i as int),
        decreases frags.len() - i,
    {
        let t = TokenShape {
            text: frags[i].0.clone(),
            run_index: ri,
            breakable: frags[i].1,
            force_break: false,
        };
        let ghost before = tokens_view(out@);
        out.push(t);
        proof {
            assert(tokens_view(out@) =~= before.push(tokens_view(out@).last()));
            assert(tokens_view(out@).last() == pt[i as int]);
            assert(pt.take(i + 1) =~= pt.take(i as int).push(pt[i as int]));
        }
        i = i + 1;
    }
    assert(pt.take(i as int) =~= pt);
}

/// Appends the tokens of a non-empty run `ri`.
fn push_run_tokens(out: &mut Vec<TokenShape>, text: &String, ri: usize)
    ensures
        tokens_view(final(out)@) == tokens_view(old(out)@) + pieces_tokens(ri as nat, split_newlines(text@)),
{
    let cs = str_chars(text.as_str());
    let ghost start = tokens_view(out@);
    let mut piece: Vec<char> = Vec::new();
    let mut k: usize = 0;
    proof {
        assert(cs@.take(0) =~= Seq::<char>::empty());
        assert(split_newlines(cs@.take(0)) =~= seq![Seq::<char>::empty()]);
        assert(emitted_before(ri as nat, split_newlines(cs@.take(0))) =~= Seq::<TokenView>::empty());
        assert(start + Seq::<TokenView>::empty() =~= start);
    }
    while k < cs.len()
        invariant
            k <= cs.len(),
            cs@ == text@,
            split_newlines(cs@.take(k as int)).len() >= 1,
            piece@ == split_newlines(cs@.take(k as int)).last(),
            tokens_view(out@) == start + emitted_before(ri as nat, split_newlines(cs@.take(k as int))),
        decreases cs.len() - k,
    {
        let c = cs[k];
        let ghost p = split_newlines(cs@.take(k as int));
        proof {
            assert(cs@.take(k + 1).drop_last() =~= cs@.take(k as int));
            assert(cs@.take(k + 1).last() == c);
        }
        if c == '\n' {
            push_piece(out, &piece, ri);
            let ghost mid = tokens_view(out@);
            out.push(TokenShape { text: String::new(), run_index: ri, breakable: true, force_break: true });
            piece = Vec::new();
            proof {
                let p2 = p.push(Seq::empty());
                assert(split_newlines(cs@.take(k + 1)) == p2);
                assert(p2.drop_last() =~= p);
                assert(pieces_tokens(ri as nat, p) == emitted_before(ri as nat, p) + piece_tokens(
                    ri as nat,
                    p.last(),
                ));
                assert(tokens_view(out@) =~= mid.push(break_token(ri as nat)));
                assert(tokens_view(out@) =~= start + emitted_before(ri as nat, p2));
                assert(piece@ =~= p2.last());
            }
        } else {
            piece.push(c);
            proof {
                let p2 = p.update(p.len() - 1, p.last().push(c));
                assert(split_newlines(cs@.take(k + 1)) == p2);
                assert(p2.drop_last() =~= p.drop_last());
                assert(emitted_before(ri as nat, p2) == emitted_before(ri as nat, p));
                assert(piece@ =~= p2.last());
            }
        }
        k = k + 1;
    }
    let ghost p = split_newlines(cs@.take(k as int));
    push_piece(out, &piece, ri);
    proof {
        assert(cs@.take(k as int) =~= text@);
        assert(pieces_tokens(ri as nat, p) == emitted_before(ri as nat, p) + piece_tokens(ri as nat, p.last()));
        assert(tokens_view(out@) =~= start + pieces_tokens(ri as nat, p));
    }
}

/// Cuts the runs of a paragraph into tokens: each run's text is split at
/// `\n` into pieces with a forced break between them, and each piece
/// into fragments (whitespace runs, single CJK characters, runs of other
/// characters). Empty runs give no token; the very first token is not a
/// break opportunity unless it is a forced break.
pub fn tokenize_run_texts(texts: &Vec<String>) -> (r: Vec<TokenShape>)
    ensures
        tokens_view(r@) == paragraph_tokens(strings_view(texts@)),
{
    let ghost sv = strings_view(texts@);
    let mut out: Vec<TokenShape> = Vec::new();
    let mut i: usize = 0;
    proof {
        assert(sv.take(0) =~= Seq::<Seq<char>>::empty());
        assert(tokens_view(out@) =~= Seq::<TokenView>::empty());
    }
    while i < texts.len()
        invariant
            i <= texts.len(),
            sv == strings_view(texts@),
            tokens_view(out@) == runs_tokens(sv.take(i as int)),
        decreases texts.len() - i,
    {
        proof {
            assert(sv.take(i + 1).drop_last() =~= sv.take(i as int));
            assert(sv.take(i + 1).last() == texts@[i as int]@);
        }
        if !texts[i].as_str().is_empty() {
            push_run_tokens(&mut out, &texts[i], i);
        } else {
            assert(tokens_view(out@) =~= tokens_view(out@) + Seq::<TokenView>::empty());
        }
        i = i + 1;
    }
    assert(sv.take(i as int) =~= sv);
    if out.len() > 0 && !out[0].force_break {
        let first = TokenShape {
            text: out[0].text.clone(),
            run_index: out[0].run_index,
            breakable: false,
            force_break: false,
        };
        let ghost before = tokens_view(out@);
        out.set(0, first);
        assert(tokens_view(out@) =~= before.update(0, TokenView { breakable: false, ..before[0] }));
    }
    out
}

/// The text and run index of each segment.
pub open spec fn segments_view(v: Seq<(String, usize)>) -> Seq<(Seq<char>, nat)> {
    v.map_values(|s: (String, usize)| (s.0@, s.1 as nat))
}

/// A line's tokens merged into segments: empty tokens are dropped, and a
/// token from the same run as the segment before it is appended to that
/// segment.
pub open spec fn merged_segments(ts: Seq<(Seq<char>, nat)>) -> Seq<(Seq<char>, nat)>
    decreases ts.len(),
{
    if ts.len() == 0 {
        Seq::empty()
    } else {
        let m = merged_segments(ts.drop_last());
        let t = ts.last();
        if t.0.len() == 0 {
            m
        } else if m.len() > 0 && m.last().1 == t.1 {
            m.update(m.len() - 1, (m.last().0 + t.0, t.1))
        } else {
            m.push(t)
        }
    }
}

/// Merges a line's tokens, given as `(text, run index)`, into segments.
pub fn merge_segments(tokens: &Vec<(String, usize)>) -> (r: Vec<(String, usize)>)
    ensures
        segments_view(r@) == merged_segments(segments_view(tokens@)),
{
    let ghost tv = segments_view(tokens@);
    let mut segs: Vec<(String, usize)> = Vec::new();
    let mut i: usize = 0;
    proof {
        assert(tv.take(0) =~= Seq::<(Seq<char>, nat)>::empty());
        assert(segments_view(segs@) =~= Seq::<(Seq<char>, nat)>::empty());
    }
    while i < tokens.len()
        invariant
            i <= tokens.len(),
            tv == segments_view(tokens@),
            segments_view(segs@) == merged_segments(tv.take(i as int)),
        decreases tokens.len() - i,
    {
        let text = &tokens[i].0;
        let ri = tokens[i].1;
        let ghost m = segments_view(segs@);
        proof {
            assert(tv.take(i + 1).drop_last() =~= tv.take(i as int));
            assert(tv.take(i + 1).last() == (text@, ri as nat));
        }
        if text.as_str().is_empty() {
        } else if segs.len() > 0 && segs[segs.len() - 1].1 == ri {
            let last = segs.len() - 1;
            let mut joined = segs[last].0.clone();
            push_chars(&mut joined, text.as_str());
            segs.set(last, (joined, ri));
            assert(segments_view(segs@) =~= m.update(m.len() - 1, (m.last().0 + text@, ri as nat)));
        } else {
            segs.push((text.clone(), ri));
            assert(segments_view(segs@) =~= m.push((text@, ri as nat)));
        }
        i = i + 1;
    }
    assert(tv.take(i as int) =~= tv);
    segs
}

/// A character with the Unicode `White_Space` property.
pub open spec fn white_space(c: char) -> bool {
    let v = c as u32;
    (0x09 <= v && v <= 0x0D) || v == 0x20 || v == 0x85 || v == 0xA0 || v == 0x1680 || (0x2000 <= v
        && v <= 0x200A) || v == 0x2028 || v == 0x2029 || v == 0x202F || v == 0x205F || v == 0x3000
}

/// Whether `c` has the Unicode `White_Space` property.
pub fn is_white_space(c: char) -> (r: bool)
    ensures
        r == white_space(c),
{
    let v = c as u32;
    (0x09 <= v && v <= 0x0D) || v == 0x20 || v == 0x85 || v == 0xA0 || v == 0x1680 || (0x2000 <= v
        && v <= 0x200A) || v == 0x2028 || v == 0x2029 || v == 0x202F || v == 0x205F || v == 0x3000
}

/// `s` without its trailing white space.
pub open spec fn trim_end_chars(s: Seq<char>) -> Seq<char>
    decreases s.len(),
{
    if s.len() > 0 && white_space(s.last()) {
        trim_end_chars(s.drop_last())
    } else {
        s
    }
}

/// A line's segments without trailing white space: segments that are all
/// white space are dropped from the end, and the last remaining one is
/// trimmed.
pub open spec fn trimmed_segments(segs: Seq<(Seq<char>, nat)>) -> Seq<(Seq<char>, nat)>
    decreases segs.len(),
{
    if segs.len() == 0 {
        segs
    } else {
        let t = trim_end_chars(segs.last().0);
        if t.len() == 0 {
            trimmed_segments(segs.drop_last())
        } else {
            segs.update(segs.len() - 1, (t, segs.last().1))
        }
    }
}

/// The text without its trailing white space.
fn trim_end_string(s: &String) -> (r: String)
    ensures
        r@ == trim_end_chars(s@),
{
    let cs = str_chars(s.as_str());
    let mut end: usize = cs.len();
    proof {
        assert(cs@.take(end as int) =~= cs@);
    }
    while end > 0 && is_white_space(cs[end - 1])
        invariant
            end <= cs.len(),
            cs@ == s@,
            trim_end_chars(cs@.take(end as int)) == trim_end_chars(s@),
        decreases end,
    {
        proof {
            assert(cs@.take(end as int).drop_last() =~= cs@.take(end - 1));
        }
        end = end - 1;
    }
    let r = string_from_chars(&cs[0..end]);
    proof {
        assert(cs@.subrange(0, end as int) =~= cs@.take(end as int));
    }
    r
}

/// Removes a line's trailing white space.
pub fn trim_trailing_spaces(segments: Vec<(String, usize)>) -> (r: Vec<(String, usize)>)
    ensures
        segments_view(r@) == trimmed_segments(segments_view(segments@)),
{
    let mut segs = segments;
    let ghost goal = trimmed_segments(segments_view(segs@));
    while segs.len() > 0
        invariant_except_break
            trimmed_segments(segments_view(segs@)) == goal,
        ensures
            segments_view(segs@) == goal,
        decreases segs.len(),
    {
        let ghost sv = segments_view(segs@);
        let last = segs.len() - 1;
        let trimmed = trim_end_string(&segs[last].0);
        proof {
            assert(sv.last() == (segs@[last as int].0@, segs@[last as int].1 as nat));
        }
        if trimmed.as_str().is_empty() {
            segs.pop();
            assert(segments_view(segs@) =~= sv.drop_last());
        } else {
            let ri = segs[last].1;
            segs.set(last, (trimmed, ri));
            assert(segments_view(segs@) =~= sv.update(sv.len() - 1, (trimmed@, ri as nat)));
            break;
        }
    }
    segs
}

/// The tokens' texts, one after the other.
pub open spec fn tokens_text(ts: Seq<TokenView>) -> Seq<char> {
    concat_chars(ts.map_values(|t: TokenView| t.text))
}

/// `s` without its `\n` characters.
pub open spec fn without_newlines(s: Seq<char>) -> Seq<char>
    decreases s.len(),
{
    if s.len() == 0 {
        s
    } else if s.last() == '\n' {
        without_newlines(s.drop_last())
    } else {
        without_newlines(s.drop_last()).push(s.last())
    }
}

/// The runs' texts without newlines, one after the other.
pub open spec fn runs_text(texts: Seq<Seq<char>>) -> Seq<char> {
    concat_chars(texts.map_values(|s: Seq<char>| without_newlines(s)))
}

proof fn lemma_concat_push(s: Seq<Seq<char>>, x: Seq<char>)
    ensures
        concat_chars(s.push(x)) == concat_chars(s) + x,
{
    assert(s.push(x).drop_last() =~= s);
}

proof fn lemma_concat_append(a: Seq<Seq<char>>, b: Seq<Seq<char>>)
    ensures
        concat_chars(a + b) == concat_chars(a) + concat_chars(b),
    decreases b.len(),
{
    if b.len() == 0 {
        assert(a + b =~= a);
        assert(concat_chars(a) + concat_chars(b) =~= concat_chars(a));
    } else {
        lemma_concat_append(a, b.drop_last());
        assert((a + b).drop_last() =~= a + b.drop_last());
        assert((a + b).last() == b.last());
        assert(concat_chars(a) + concat_chars(b) =~= concat_chars(a) + concat_chars(b.drop_last())
            + b.last());
    }
}

proof fn lemma_tokens_text_append(a: Seq<TokenView>, b: Seq<TokenView>)
    ensures
        tokens_text(a + b) == tokens_text(a) + tokens_text(b),
{
    assert((a + b).map_values(|t: TokenView| t.text) =~= a.map_values(|t: TokenView| t.text)
        + b.map_values(|t: TokenView| t.text));
    lemma_concat_append(a.map_values(|t: TokenView| t.text), b.map_values(|t: TokenView| t.text));
}

proof fn lemma_fragments_text(p: Seq<char>)
    ensures
        concat_chars(fragments_of(p).map_values(|f: (Seq<char>, bool)| f.0)) == p,
    decreases p.len(),
{
    if p.len() > 0 {
        let prev = p.drop_last();
        lemma_fragments_text(prev);
        let f = fragments_of(prev);
        let c = p.last();
        let ft = f.map_values(|x: (Seq<char>, bool)| x.0);
        let g = fragments_of(p);
        let gt = g.map_values(|x: (Seq<char>, bool)| x.0);
        if frag_kind(c) != 1 && f.len() > 0 && frag_kind(f.last().0[0]) == frag_kind(c) {
            assert(gt.drop_last() =~= ft.drop_last());
            assert(gt.last() == ft.last().push(c));
            assert(concat_chars(ft) == concat_chars(ft.drop_last()) + ft.last());
            assert(concat_chars(gt) =~= concat_chars(ft) + seq![c]);
        } else {
            assert(gt =~= ft.push(seq![c]));
            lemma_concat_push(ft, seq![c]);
        }
        assert(prev.push(c) =~= p);
    }
}

proof fn lemma_piece_tokens_text(ri: nat, p: Seq<char>)
    ensures
        tokens_text(piece_tokens(ri, p)) == p,
{
    lemma_fragments_text(p);
    assert(piece_tokens(ri, p).map_values(|t: TokenView| t.text) =~= fragments_of(p).map_values(
        |f: (Seq<char>, bool)| f.0,
    ));
}

proof fn lemma_pieces_tokens_text(ri: nat, ps: Seq<Seq<char>>)
    ensures
        tokens_text(pieces_tokens(ri, ps)) == concat_chars(ps),
    decreases ps.len(),
{
    if ps.len() > 0 {
        lemma_pieces_tokens_text(ri, ps.drop_last());
        let head = pieces_tokens(ri, ps.drop_last());
        let brk: Seq<TokenView> = if ps.len() > 1 {
            seq![break_token(ri)]
        } else {
            Seq::empty()
        };
        lemma_tokens_text_append(head, brk);
        lemma_tokens_text_append(head + brk, piece_tokens(ri, ps.last()));
        lemma_piece_tokens_text(ri, ps.last());
        assert(tokens_text(brk) =~= Seq::<char>::empty()) by {
            if ps.len() > 1 {
                assert(brk.map_values(|t: TokenView| t.text) =~= seq![Seq::<char>::empty()]);
                lemma_concat_push(Seq::<Seq<char>>::empty(), Seq::<char>::empty());
            } else {
                assert(brk.map_values(|t: TokenView| t.text) =~= Seq::<Seq<char>>::empty());
            }
        }
        lemma_concat_push(ps.drop_last(), ps.last());
        assert(ps.drop_last().push(ps.last()) =~= ps);
    }
}

proof fn lemma_split_newlines_text(s: Seq<char>)
    ensures
        concat_chars(split_newlines(s)) == without_newlines(s),
        split_newlines(s).len() >= 1,
    decreases s.len(),
{
    if s.len() == 0 {
        lemma_concat_push(Seq::<Seq<char>>::empty(), Seq::<char>::empty());
        assert(seq![Seq::<char>::empty()] =~= Seq::<Seq<char>>::empty().push(Seq::<char>::empty()));
    } else {
        let prev = s.drop_last();
        lemma_split_newlines_text(prev);
        let p = split_newlines(prev);
        if s.last() == '\n' {
            lemma_concat_push(p, Seq::empty());
            assert(concat_chars(p) + Seq::<char>::empty() =~= concat_chars(p));
        } else {
            let q = p.update(p.len() - 1, p.last().push(s.last()));
            assert(q.drop_last() =~= p.drop_last());
            assert(concat_chars(p) == concat_chars(p.drop_last()) + p.last());
            assert(concat_chars(q) =~= concat_chars(p).push(s.last()));
        }
    }
}

/// Cutting a paragraph into tokens keeps its text: the tokens' texts,
/// one after the other, are the runs' texts with the newlines (which
/// become forced breaks) removed.
pub proof fn law_tokens_keep_text(texts: Seq<Seq<char>>)
    ensures
        tokens_text(paragraph_tokens(texts)) == runs_text(texts),
    decreases texts.len(),
{
    lemma_runs_tokens_text(texts);
    let raw = runs_tokens(texts);
    if raw.len() > 0 && !raw[0].force_break {
        let upd = raw.update(0, TokenView { breakable: false, ..raw[0] });
        assert(upd.map_values(|t: TokenView| t.text) =~= raw.map_values(|t: TokenView| t.text));
    }
}

proof fn lemma_runs_tokens_text(texts: Seq<Seq<char>>)
    ensures
        tokens_text(runs_tokens(texts)) == runs_text(texts),
    decreases texts.len(),
{
    if texts.len() == 0 {
        assert(runs_tokens(texts).map_values(|t: TokenView| t.text) =~= Seq::<Seq<char>>::empty());
        assert(texts.map_values(|s: Seq<char>| without_newlines(s)) =~= Seq::<Seq<char>>::empty());
    } else {
        let prev = texts.drop_last();
        let last = texts.last();
        lemma_runs_tokens_text(prev);
        let i = (texts.len() - 1) as nat;
        let tail: Seq<TokenView> = if last.len() == 0 {
            Seq::empty()
        } else {
            pieces_tokens(i, split_newlines(last))
        };
        lemma_tokens_text_append(runs_tokens(prev), tail);
        lemma_split_newlines_text(last);
        if last.len() == 0 {
            assert(tail.map_values(|t: TokenView| t.text) =~= Seq::<Seq<char>>::empty());
        } else {
            lemma_pieces_tokens_text(i, split_newlines(last));
        }
        let m = texts.map_values(|s: Seq<char>| without_newlines(s));
        assert(m.drop_last() =~= prev.map_values(|s: Seq<char>| without_newlines(s)));
        assert(m.last() == without_newlines(last));
        assert(concat_chars(m) == concat_chars(m.drop_last()) + m.last());
    }
}

/// The segments' texts, one after the other.
pub open spec fn segments_text(s: Seq<(Seq<char>, nat)>) -> Seq<char> {
    concat_chars(s.map_values(|p: (Seq<char>, nat)| p.0))
}

proof fn lemma_segments_text_push(s: Seq<(Seq<char>, nat)>, x: (Seq<char>, nat))
    ensures
        segments_text(s.push(x)) == segments_text(s) + x.0,
{
    assert(s.push(x).map_values(|p: (Seq<char>, nat)| p.0).drop_last() =~= s.map_values(
        |p: (Seq<char>, nat)| p.0,
    ));
}

proof fn lemma_segments_text_last(s: Seq<(Seq<char>, nat)>)
    requires
        s.len() > 0,
    ensures
        segments_text(s) == segments_text(s.drop_last()) + s.last().0,
{
    lemma_segments_text_push(s.drop_last(), s.last());
    assert(s.drop_last().push(s.last()) =~= s);
}

/// Merging keeps the line's text, leaves no empty segment, and no two
/// neighbouring segments come from the same run.
pub proof fn law_merge_keeps_text(ts: Seq<(Seq<char>, nat)>)
    ensures
        segments_text(merged_segments(ts)) == segments_text(ts),
        forall|i: int|
            0 <= i < merged_segments(ts).len() ==> (#[trigger] merged_segments(ts)[i]).0.len() > 0,
        forall|i: int|
            0 <= i < merged_segments(ts).len() - 1 ==> (#[trigger] merged_segments(ts)[i]).1
                != merged_segments(ts)[i + 1].1,
    decreases ts.len(),
{
    if ts.len() > 0 {
        let prev = ts.drop_last();
        law_merge_keeps_text(prev);
        let m = merged_segments(prev);
        let t = ts.last();
        lemma_segments_text_last(ts);
        if t.0.len() == 0 {
            assert(segments_text(ts) =~= segments_text(prev));
        } else if m.len() > 0 && m.last().1 == t.1 {
            let m2 = m.update(m.len() - 1, (m.last().0 + t.0, t.1));
            lemma_segments_text_last(m);
            lemma_segments_text_last(m2);
            assert(m2.drop_last() =~= m.drop_last());
            assert(segments_text(m2) =~= segments_text(m) + t.0);
            assert forall|i: int| 0 <= i < m2.len() - 1 implies (#[trigger] m2[i]).1 != m2[i + 1].1 by {
                assert(m2[i] == m[i]);
                if i + 1 < m2.len() - 1 {
                    assert(m2[i + 1] == m[i + 1]);
                }
            }
        } else {
            lemma_segments_text_push(m, t);
            assert forall|i: int| 0 <= i < m.push(t).len() - 1 implies (#[trigger] m.push(t)[i]).1
                != m.push(t)[i + 1].1 by {
                assert(m.push(t)[i] == m[i]);
                if i + 1 < m.len() {
                    assert(m.push(t)[i + 1] == m[i + 1]);
                }
            }
        }
    }
}

proof fn lemma_trim_end_concat(c: Seq<char>, l: Seq<char>)
    ensures
        trim_end_chars(c + l) == (if trim_end_chars(l).len() == 0 {
            trim_end_chars(c)
        } else {
            c + trim_end_chars(l)
        }),
    decreases l.len(),
{
    if l.len() == 0 {
        assert(c + l =~= c);
    } else {
        assert((c + l).drop_last() =~= c + l.drop_last());
        assert((c + l).last() == l.last());
        lemma_trim_end_concat(c, l.drop_last());
        if !white_space(l.last()) {
            assert(trim_end_chars(l) == l);
        }
    }
}

/// Trimming a line removes exactly the white space at the end of its
/// text.
pub proof fn law_trim_is_trim_end(segs: Seq<(Seq<char>, nat)>)
    ensures
        segments_text(trimmed_segments(segs)) == trim_end_chars(segments_text(segs)),
    decreases segs.len(),
{
    if segs.len() == 0 {
        assert(segments_text(segs) =~= Seq::<char>::empty());
    } else {
        let prev = segs.drop_last();
        let l = segs.last().0;
        lemma_segments_text_last(segs);
        lemma_trim_end_concat(segments_text(prev), l);
        let t = trim_end_chars(l);
        if t.len() == 0 {
            law_trim_is_trim_end(prev);
        } else {
            let s2 = segs.update(segs.len() - 1, (t, segs.last().1));
            lemma_segments_text_last(s2);
            assert(s2.drop_last() =~= prev);
        }
    }
}

} // verus!
