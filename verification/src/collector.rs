//! Font names a presentation's theme refers to.
use vstd::prelude::*;

use crate::strmap::{
    chars_lt, has_key, lemma_sorted_lookup, string_map_view, string_values, StrMap,
};
use crate::mapping::opt_string_view;
use crate::theme::FontScheme;

verus! {

/// A set of font family names, in ascending order.
pub type FontSet = StrMap<()>;

/// Theme font names from `<a:fontScheme>`, script-keyed tables
/// included.
pub struct ThemeFonts {
    /// `<a:majorFont><a:latin>` typeface.
    pub major_font: String,
    /// `<a:minorFont><a:latin>` typeface.
    pub minor_font: String,
    /// `<a:majorFont><a:ea>` typeface.
    pub major_font_ea: Option<String>,
    /// `<a:minorFont><a:ea>` typeface.
    pub minor_font_ea: Option<String>,
    /// `<a:majorFont><a:cs>` typeface.
    pub major_font_cs: Option<String>,
    /// `<a:minorFont><a:cs>` typeface.
    pub minor_font_cs: Option<String>,
    /// Major-font script-keyed typefaces.
    pub major_script_fonts: StrMap<String>,
    /// Minor-font script-keyed typefaces.
    pub minor_script_fonts: StrMap<String>,
}

/// The fonts a presentation uses: its theme fonts, and the sorted,
/// distinct list of every family name it refers to.
pub struct UsedFonts {
    /// Theme-defined fonts.
    pub theme: ThemeFonts,
    /// Every referenced family name, sorted and distinct.
    pub fonts: Vec<String>,
}

/// The name an optional face contributes.
pub open spec fn opt_name(o: Option<String>) -> Set<Seq<char>> {
    match o {
        Some(s) => set![s@],
        None => Set::empty(),
    }
}

/// Every family name the font scheme names.
pub open spec fn theme_font_names(scheme: FontScheme) -> Set<Seq<char>> {
    set![scheme.major_font@, scheme.minor_font@]
        + opt_name(scheme.major_font_ea)
        + opt_name(scheme.minor_font_ea)
        + opt_name(scheme.major_font_cs)
        + opt_name(scheme.minor_font_cs)
        + string_values(scheme.major_script_fonts.as_map())
        + string_values(scheme.minor_script_fonts.as_map())
}

/// Adds `name` to the set.
fn add_name(fonts: &mut FontSet, name: &String)
    requires
        old(fonts).wf(),
    ensures
        final(fonts).wf(),
        final(fonts).as_map().dom() == old(fonts).as_map().dom().insert(name@),
{
    fonts.insert(name.clone(), ());
}

/// Adds the optional name to the set.
fn add_opt_name(fonts: &mut FontSet, name: &Option<String>)
    requires
        old(fonts).wf(),
    ensures
        final(fonts).wf(),
        final(fonts).as_map().dom() == old(fonts).as_map().dom() + opt_name(*name),
{
    match name {
        Some(n) => {
            add_name(fonts, n);
            assert(final(fonts).as_map().dom() =~= old(fonts).as_map().dom() + opt_name(*name));
        },
        None => {
            assert(old(fonts).as_map().dom() + opt_name(*name) =~= old(fonts).as_map().dom());
        },
    }
}

/// Adds every value of `m` to the set.
fn add_values(fonts: &mut FontSet, m: &StrMap<String>)
    requires
        old(fonts).wf(),
        m.wf(),
    ensures
        final(fonts).wf(),
        final(fonts).as_map().dom() == old(fonts).as_map().dom() + string_values(m.as_map()),
{
    let ghost base = fonts.as_map().dom();
    let ghost ev = m.entries_view();
    let n = m.len();
    let mut i: usize = 0;
    proof {
        assert(base + Set::new(|v: Seq<char>| exists|j: int| 0 <= j < 0 && #[trigger] ev[j].1@ == v)
            =~= base);
    }
    while i < n
        invariant
            i <= n,
            n == ev.len(),
            m.wf(),
            ev == m.entries_view(),
            fonts.wf(),
            fonts.as_map().dom() == base + Set::new(
                |v: Seq<char>| exists|j: int| 0 <= j < i && #[trigger] ev[j].1@ == v,
            ),
        decreases n - i,
    {
        let (_, value) = m.entry_at(i);
        let ghost before = fonts.as_map().dom();
        add_name(fonts, value);
        proof {
            let s_old = Set::new(|v: Seq<char>| exists|j: int| 0 <= j < i && #[trigger] ev[j].1@ == v);
            let s_new = Set::new(
                |v: Seq<char>| exists|j: int| 0 <= j < i + 1 && #[trigger] ev[j].1@ == v,
            );
            assert forall|v: Seq<char>| #[trigger] s_new.contains(v) <==> s_old.insert(value@).contains(v) by {
                if s_new.contains(v) {
                    let j = choose|j: int| 0 <= j < i + 1 && #[trigger] ev[j].1@ == v;
                    if j < i {
                        assert(s_old.contains(v));
                    }
                }
                if s_old.contains(v) {
                    let j = choose|j: int| 0 <= j < i && #[trigger] ev[j].1@ == v;
                    assert(ev[j].1@ == v);
                }
                if v == value@ {
                    assert(ev[i as int].1@ == v);
                }
            }
            assert(fonts.as_map().dom() =~= base + s_new);
        }
        i = i + 1;
    }
    proof {
        let s = Set::new(|v: Seq<char>| exists|j: int| 0 <= j < n && #[trigger] ev[j].1@ == v);
        m.lemma_sorted();
        assert forall|v: Seq<char>| #[trigger] s.contains(v) <==> string_values(m.as_map()).contains(v) by {
            if s.contains(v) {
                let j = choose|j: int| 0 <= j < n && #[trigger] ev[j].1@ == v;
                lemma_sorted_lookup(ev, j);
                assert(m.as_map().dom().contains(ev[j].0) && m.as_map()[ev[j].0]@ == v);
            }
            if string_values(m.as_map()).contains(v) {
                let k = choose|k: Seq<char>| m.as_map().dom().contains(k) && #[trigger] m.as_map()[k]@ == v;
                assert(has_key(ev, k));
                let j = choose|j: int| 0 <= j < ev.len() && (#[trigger] ev[j]).0 == k;
                lemma_sorted_lookup(ev, j);
                assert(ev[j].1@ == v);
            }
        }
        assert(s =~= string_values(m.as_map()));
    }
}

/// Adds every family name of the theme's font scheme to `fonts`:
/// major / minor Latin, East-Asian and complex-script faces and every
/// script-keyed typeface.
pub fn collect_theme_fonts(scheme: &FontScheme, fonts: &mut FontSet)
    requires
        scheme.wf(),
        old(fonts).wf(),
    ensures
        final(fonts).wf(),
        final(fonts).as_map().dom() == old(fonts).as_map().dom() + theme_font_names(*scheme),
{
    add_name(fonts, &scheme.major_font);
    add_name(fonts, &scheme.minor_font);
    add_opt_name(fonts, &scheme.major_font_ea);
    add_opt_name(fonts, &scheme.minor_font_ea);
    add_opt_name(fonts, &scheme.major_font_cs);
    add_opt_name(fonts, &scheme.minor_font_cs);
    add_values(fonts, &scheme.major_script_fonts);
    add_values(fonts, &scheme.minor_script_fonts);
    assert(final(fonts).as_map().dom() =~= old(fonts).as_map().dom() + theme_font_names(*scheme));
}

/// The font references of one text run.
pub struct RunFonts {
    /// Latin typeface (`<a:latin>`).
    pub font_family: Option<String>,
    /// East-Asian typeface (`<a:ea>`).
    pub font_family_ea: Option<String>,
    /// Complex-script typeface (`<a:cs>`).
    pub font_family_cs: Option<String>,
}

/// The font references of one paragraph.
pub struct ParagraphFonts {
    /// Typeface of the bullet glyph (`<a:buFont>`).
    pub bullet_font: Option<String>,
    /// The paragraph's runs.
    pub runs: Vec<RunFonts>,
}

/// The font references of a text body.
pub struct TextBodyFonts {
    /// The body's paragraphs.
    pub paragraphs: Vec<ParagraphFonts>,
}

/// The font references of a slide element.
pub enum ElementFonts {
    /// A shape, with its text body if it has one.
    Shape(Option<TextBodyFonts>),
    /// A group and its children.
    Group(Vec<ElementFonts>),
    /// A table: its rows, each a list of cells with an optional text body.
    Table(Vec<Vec<Option<TextBodyFonts>>>),
    /// An element that carries no text (picture, connector, chart).
    NoText,
}

/// The elements one rendered slide draws: its own, its layout's and its
/// master's.
pub struct SlideFonts {
    /// The slide's own elements.
    pub slide: Vec<ElementFonts>,
    /// The layout's elements.
    pub layout: Vec<ElementFonts>,
    /// The master's elements.
    pub master: Vec<ElementFonts>,
}

/// The font references of a whole presentation.
pub struct PresentationFonts {
    /// The theme's font scheme.
    pub font_scheme: FontScheme,
    /// The rendered slides.
    pub slides: Vec<SlideFonts>,
}

impl PresentationFonts {
    /// The font scheme's tables are well formed.
    pub open spec fn wf(&self) -> bool {
        self.font_scheme.wf()
    }
}

/// Union of `f` over the items of `s`.
pub open spec fn names_over<T>(s: Seq<T>, f: spec_fn(T) -> Set<Seq<char>>) -> Set<Seq<char>>
    decreases s.len(),
{
    if s.len() == 0 {
        Set::empty()
    } else {
        names_over(s.drop_last(), f) + f(s.last())
    }
}

/// The names a run refers to.
pub open spec fn run_names(r: RunFonts) -> Set<Seq<char>> {
    opt_name(r.font_family) + opt_name(r.font_family_ea) + opt_name(r.font_family_cs)
}

/// The names a paragraph refers to: its bullet font and its runs' fonts.
pub open spec fn paragraph_names(p: ParagraphFonts) -> Set<Seq<char>> {
    opt_name(p.bullet_font) + names_over(p.runs@, |r: RunFonts| run_names(r))
}

/// The names a text body refers to.
pub open spec fn body_names(b: TextBodyFonts) -> Set<Seq<char>> {
    names_over(b.paragraphs@, |p: ParagraphFonts| paragraph_names(p))
}

/// The names an optional text body refers to.
pub open spec fn opt_body_names(o: Option<TextBodyFonts>) -> Set<Seq<char>> {
    match o {
        Some(b) => body_names(b),
        None => Set::empty(),
    }
}

/// The names a table row's cells refer to.
pub open spec fn row_names(row: Seq<Option<TextBodyFonts>>) -> Set<Seq<char>> {
    names_over(row, |c: Option<TextBodyFonts>| opt_body_names(c))
}

/// The names a table's cells refer to.
pub open spec fn table_names(rows: Seq<Vec<Option<TextBodyFonts>>>) -> Set<Seq<char>> {
    names_over(rows, |row: Vec<Option<TextBodyFonts>>| row_names(row@))
}

/// The names a list of elements refers to, group children included.
pub open spec fn elements_names(s: Seq<ElementFonts>) -> Set<Seq<char>>
    decreases s,
{
    if s.len() == 0 {
        Set::empty()
    } else {
        elements_names(s.drop_last()) + match s.last() {
            ElementFonts::Shape(b) => opt_body_names(b),
            ElementFonts::Group(children) => elements_names(children@),
            ElementFonts::Table(rows) => table_names(rows@),
            ElementFonts::NoText => Set::empty(),
        }
    }
}

proof fn lemma_names_over_step<T>(s: Seq<T>, f: spec_fn(T) -> Set<Seq<char>>, i: int)
    requires
        0 <= i < s.len(),
    ensures
        names_over(s.take(i + 1), f) == names_over(s.take(i), f) + f(s[i]),
{
    assert(s.take(i + 1).drop_last() =~= s.take(i));
}

proof fn lemma_elements_step(s: Seq<ElementFonts>, i: int)
    requires
        0 <= i < s.len(),
    ensures
        elements_names(s.take(i + 1)) == elements_names(s.take(i)) + match s[i] {
            ElementFonts::Shape(b) => opt_body_names(b),
            ElementFonts::Group(children) => elements_names(children@),
            ElementFonts::Table(rows) => table_names(rows@),
            ElementFonts::NoText => Set::empty(),
        },
{
    assert(s.take(i + 1).drop_last() =~= s.take(i));
}

/// Adds the fonts of one run.
fn add_run(fonts: &mut FontSet, run: &RunFonts)
    requires
        old(fonts).wf(),
    ensures
        final(fonts).wf(),
        final(fonts).as_map().dom() == old(fonts).as_map().dom() + run_names(*run),
{
    add_opt_name(fonts, &run.font_family);
    add_opt_name(fonts, &run.font_family_ea);
    add_opt_name(fonts, &run.font_family_cs);
    assert(final(fonts).as_map().dom() =~= old(fonts).as_map().dom() + run_names(*run));
}

/// Adds the fonts of one paragraph: its bullet font, then its runs'.
fn add_paragraph(fonts: &mut FontSet, para: &ParagraphFonts)
    requires
        old(fonts).wf(),
    ensures
        final(fonts).wf(),
        final(fonts).as_map().dom() == old(fonts).as_map().dom() + paragraph_names(*para),
{
    add_opt_name(fonts, &para.bullet_font);
    let ghost base = fonts.as_map().dom();
    let ghost f = |r: RunFonts| run_names(r);
    let n = para.runs.len();
    let mut i: usize = 0;
    proof {
        assert(para.runs@.take(0) =~= Seq::<RunFonts>::empty());
        assert(base + names_over(para.runs@.take(0), f) =~= base);
    }
    while i < n
        invariant
            i <= n,
            n == para.runs@.len(),
            f == (|r: RunFonts| run_names(r)),
            fonts.wf(),
            fonts.as_map().dom() == base + names_over(para.runs@.take(i as int), f),
        decreases n - i,
    {
        let ghost before = fonts.as_map().dom();
        add_run(fonts, &para.runs[i]);
        proof {
            lemma_names_over_step(para.runs@, f, i as int);
            assert(f(para.runs@[i as int]) == run_names(para.runs@[i as int]));
            assert(fonts.as_map().dom() == before + run_names(para.runs@[i as int]));
            assert(before == base + names_over(para.runs@.take(i as int), f));
            assert(fonts.as_map().dom() =~= base + names_over(para.runs@.take(i + 1), f));
        }
        i = i + 1;
    }
    proof {
        assert(para.runs@.take(n as int) =~= para.runs@);
        assert(final(fonts).as_map().dom() =~= old(fonts).as_map().dom() + paragraph_names(*para));
    }
}

/// Adds every font a text body refers to: each paragraph's bullet font
/// and each run's Latin, East-Asian and complex-script faces.
pub fn collect_fonts_from_text_body(body: &TextBodyFonts, fonts: &mut FontSet)
    requires
        old(fonts).wf(),
    ensures
        final(fonts).wf(),
        final(fonts).as_map().dom() == old(fonts).as_map().dom() + body_names(*body),
{
    let ghost base = fonts.as_map().dom();
    let ghost f = |p: ParagraphFonts| paragraph_names(p);
    let n = body.paragraphs.len();
    let mut i: usize = 0;
    proof {
        assert(body.paragraphs@.take(0) =~= Seq::<ParagraphFonts>::empty());
        assert(base + names_over(body.paragraphs@.take(0), f) =~= base);
    }
    while i < n
        invariant
            i <= n,
            n == body.paragraphs@.len(),
            f == (|p: ParagraphFonts| paragraph_names(p)),
            fonts.wf(),
            fonts.as_map().dom() == base + names_over(body.paragraphs@.take(i as int), f),
        decreases n - i,
    {
        let ghost before = fonts.as_map().dom();
        add_paragraph(fonts, &body.paragraphs[i]);
        proof {
            lemma_names_over_step(body.paragraphs@, f, i as int);
            assert(f(body.paragraphs@[i as int]) == paragraph_names(body.paragraphs@[i as int]));
            assert(before == base + names_over(body.paragraphs@.take(i as int), f));
            assert(fonts.as_map().dom() =~= base + names_over(body.paragraphs@.take(i + 1), f));
        }
        i = i + 1;
    }
    proof {
        assert(body.paragraphs@.take(n as int) =~= body.paragraphs@);
    }
}

/// Adds the fonts of an optional text body.
fn add_opt_body(fonts: &mut FontSet, body: &Option<TextBodyFonts>)
    requires
        old(fonts).wf(),
    ensures
        final(fonts).wf(),
        final(fonts).as_map().dom() == old(fonts).as_map().dom() + opt_body_names(*body),
{
    match body {
        Some(b) => collect_fonts_from_text_body(b, fonts),
        None => {
            assert(old(fonts).as_map().dom() + opt_body_names(*body) =~= old(fonts).as_map().dom());
        },
    }
}

/// Adds the fonts of one table row's cells.
fn add_row(fonts: &mut FontSet, row: &Vec<Option<TextBodyFonts>>)
    requires
        old(fonts).wf(),
    ensures
        final(fonts).wf(),
        final(fonts).as_map().dom() == old(fonts).as_map().dom() + row_names(row@),
{
    let ghost base = fonts.as_map().dom();
    let ghost f = |c: Option<TextBodyFonts>| opt_body_names(c);
    let n = row.len();
    let mut i: usize = 0;
    proof {
        assert(row@.take(0) =~= Seq::<Option<TextBodyFonts>>::empty());
        assert(base + names_over(row@.take(0), f) =~= base);
    }
    while i < n
        invariant
            i <= n,
            n == row@.len(),
            f == (|c: Option<TextBodyFonts>| opt_body_names(c)),
            fonts.wf(),
            fonts.as_map().dom() == base + names_over(row@.take(i as int), f),
        decreases n - i,
    {
        let ghost before = fonts.as_map().dom();
        add_opt_body(fonts, &row[i]);
        proof {
            lemma_names_over_step(row@, f, i as int);
            assert(f(row@[i as int]) == opt_body_names(row@[i as int]));
            assert(before == base + names_over(row@.take(i as int), f));
            assert(fonts.as_map().dom() =~= base + names_over(row@.take(i + 1), f));
        }
        i = i + 1;
    }
    proof {
        assert(row@.take(n as int) =~= row@);
    }
}

/// Adds the fonts of every cell's text body in a table.
pub fn collect_fonts_from_table(rows: &Vec<Vec<Option<TextBodyFonts>>>, fonts: &mut FontSet)
    requires
        old(fonts).wf(),
    ensures
        final(fonts).wf(),
        final(fonts).as_map().dom() == old(fonts).as_map().dom() + table_names(rows@),
{
    let ghost base = fonts.as_map().dom();
    let ghost f = |row: Vec<Option<TextBodyFonts>>| row_names(row@);
    let n = rows.len();
    let mut i: usize = 0;
    proof {
        assert(rows@.take(0) =~= Seq::<Vec<Option<TextBodyFonts>>>::empty());
        assert(base + names_over(rows@.take(0), f) =~= base);
    }
    while i < n
        invariant
            i <= n,
            n == rows@.len(),
            f == (|row: Vec<Option<TextBodyFonts>>| row_names(row@)),
            fonts.wf(),
            fonts.as_map().dom() == base + names_over(rows@.take(i as int), f),
        decreases n - i,
    {
        let ghost before = fonts.as_map().dom();
        add_row(fonts, &rows[i]);
        proof {
            lemma_names_over_step(rows@, f, i as int);
            assert(f(rows@[i as int]) == row_names(rows@[i as int]@));
            assert(before == base + names_over(rows@.take(i as int), f));
            assert(fonts.as_map().dom() =~= base + names_over(rows@.take(i + 1), f));
        }
        i = i + 1;
    }
    proof {
        assert(rows@.take(n as int) =~= rows@);
    }
}

/// Adds every font the elements refer to, descending into groups and
/// table cells; pictures, connectors and charts contribute nothing.
pub fn collect_fonts_from_elements(elements: &[ElementFonts], fonts: &mut FontSet)
    requires
        old(fonts).wf(),
    ensures
        final(fonts).wf(),
        final(fonts).as_map().dom() == old(fonts).as_map().dom() + elements_names(elements@),
    decreases elements@,
{
    let ghost base = fonts.as_map().dom();
    let n = elements.len();
    let mut i: usize = 0;
    proof {
        assert(elements@.take(0) =~= Seq::<ElementFonts>::empty());
        assert(base + elements_names(elements@.take(0)) =~= base);
    }
    while i < n
        invariant
            i <= n,
            n == elements@.len(),
            fonts.wf(),
            fonts.as_map().dom() == base + elements_names(elements@.take(i as int)),
        decreases n - i,
    {
        let ghost before = fonts.as_map().dom();
        let el = &elements[i];
        proof {
            lemma_elements_step(elements@, i as int);
        }
        match el {
            ElementFonts::Shape(body) => {
                add_opt_body(fonts, body);
            },
            ElementFonts::Group(children) => {
                proof {
                    assert(decreases_to!(elements@ => elements@[i as int]));
                }
                collect_fonts_from_elements(children.as_slice(), fonts);
            },
            ElementFonts::Table(rows) => {
                collect_fonts_from_table(rows, fonts);
            },
            ElementFonts::NoText => {},
        }
        proof {
            assert(before == base + elements_names(elements@.take(i as int)));
            assert(fonts.as_map().dom() =~= base + elements_names(elements@.take(i + 1)));
        }
        i = i + 1;
    }
    proof {
        assert(elements@.take(n as int) =~= elements@);
    }
}

/// Every name the elements of one rendered slide refer to: its own,
/// its layout's and its master's.
pub open spec fn slide_names(s: SlideFonts) -> Set<Seq<char>> {
    elements_names(s.slide@) + elements_names(s.layout@) + elements_names(s.master@)
}

/// Every font family name a presentation refers to: the theme's, then
/// those of every run and bullet of every slide, layout and master.
pub open spec fn presentation_names(p: PresentationFonts) -> Set<Seq<char>> {
    theme_font_names(p.font_scheme) + names_over(p.slides@, |s: SlideFonts| slide_names(s))
}

/// Clones an optional name.
fn clone_opt(o: &Option<String>) -> (r: Option<String>)
    ensures
        opt_string_view(r) == opt_string_view(*o),
{
    match o {
        Some(s) => Some(s.clone()),
        None => None,
    }
}

/// Walks the theme and every rendered slide (its elements, its layout's
/// and its master's) and collects every font family name referenced by
/// the theme or by any text run or bullet.
///
/// `fonts` comes out sorted and free of duplicates, so identical input
/// always yields identical output.
pub fn collect_used_fonts(presentation: &PresentationFonts) -> (r: UsedFonts)
    requires
        presentation.wf(),
    ensures
        r.theme.major_font@ == presentation.font_scheme.major_font@,
        r.theme.minor_font@ == presentation.font_scheme.minor_font@,
        opt_string_view(r.theme.major_font_ea) == opt_string_view(presentation.font_scheme.major_font_ea),
        opt_string_view(r.theme.minor_font_ea) == opt_string_view(presentation.font_scheme.minor_font_ea),
        opt_string_view(r.theme.major_font_cs) == opt_string_view(presentation.font_scheme.major_font_cs),
        opt_string_view(r.theme.minor_font_cs) == opt_string_view(presentation.font_scheme.minor_font_cs),
        r.theme.major_script_fonts.wf(),
        r.theme.minor_script_fonts.wf(),
        string_map_view(r.theme.major_script_fonts.as_map()) == string_map_view(
            presentation.font_scheme.major_script_fonts.as_map(),
        ),
        string_map_view(r.theme.minor_script_fonts.as_map()) == string_map_view(
            presentation.font_scheme.minor_script_fonts.as_map(),
        ),
        forall|i: int, j: int|
            0 <= i < j < r.fonts@.len() ==> chars_lt(#[trigger] r.fonts@[i]@, #[trigger] r.fonts@[j]@),
        forall|i: int|
            0 <= i < r.fonts@.len() ==> presentation_names(*presentation).contains(#[trigger] r.fonts@[i]@),
        forall|name: Seq<char>|
            #[trigger] presentation_names(*presentation).contains(name) ==> exists|i: int|
                0 <= i < r.fonts@.len() && #[trigger] r.fonts@[i]@ == name,
{
    let scheme = &presentation.font_scheme;
    let mut fonts = FontSet::new();
    proof {
        assert(fonts.as_map() =~= Map::<Seq<char>, ()>::empty());
    }
    collect_theme_fonts(scheme, &mut fonts);
    let ghost base = fonts.as_map().dom();
    let ghost f = |s: SlideFonts| slide_names(s);
    let ghost slides = presentation.slides@;
    let n = presentation.slides.len();
    let mut i: usize = 0;
    proof {
        assert(base =~= theme_font_names(*scheme));
        assert(slides.take(0) =~= Seq::<SlideFonts>::empty());
        assert(base + names_over(slides.take(0), f) =~= base);
    }
    while i < n
        invariant
            i <= n,
            n == slides.len(),
            slides == presentation.slides@,
            f == (|s: SlideFonts| slide_names(s)),
            fonts.wf(),
            fonts.as_map().dom() == base + names_over(slides.take(i as int), f),
        decreases n - i,
    {
        let ghost before = fonts.as_map().dom();
        let rendered = &presentation.slides[i];
        collect_fonts_from_elements(rendered.slide.as_slice(), &mut fonts);
        collect_fonts_from_elements(rendered.layout.as_slice(), &mut fonts);
        collect_fonts_from_elements(rendered.master.as_slice(), &mut fonts);
        proof {
            lemma_names_over_step(slides, f, i as int);
            assert(f(slides[i as int]) == slide_names(slides[i as int]));
            assert(fonts.as_map().dom() =~= base + names_over(slides.take(i + 1), f));
        }
        i = i + 1;
    }
    proof {
        assert(slides.take(n as int) =~= slides);
        assert(fonts.as_map().dom() =~= presentation_names(*presentation));
    }
    let list = fonts.keys_vec();
    proof {
        fonts.lemma_sorted();
        let ev = fonts.entries_view();
        let names = presentation_names(*presentation);
        assert forall|k: int| 0 <= k < list@.len() implies names.contains(#[trigger] list@[k]@) by {
            lemma_sorted_lookup(ev, k);
        }
        assert forall|name: Seq<char>| #[trigger] names.contains(name) implies exists|k: int|
            0 <= k < list@.len() && #[trigger] list@[k]@ == name by {
            assert(fonts.as_map().dom().contains(name));
            assert(has_key(ev, name));
            let k = choose|k: int| 0 <= k < ev.len() && (#[trigger] ev[k]).0 == name;
            assert(list@[k]@ == name);
        }
        assert forall|a: int, b: int| 0 <= a < b < list@.len() implies chars_lt(
            #[trigger] list@[a]@,
            #[trigger] list@[b]@,
        ) by {
            assert(chars_lt(ev[a].0, ev[b].0));
        }
    }
    let r = UsedFonts {
        theme: ThemeFonts {
            major_font: scheme.major_font.clone(),
            minor_font: scheme.minor_font.clone(),
            major_font_ea: clone_opt(&scheme.major_font_ea),
            minor_font_ea: clone_opt(&scheme.minor_font_ea),
            major_font_cs: clone_opt(&scheme.major_font_cs),
            minor_font_cs: clone_opt(&scheme.minor_font_cs),
            major_script_fonts: scheme.major_script_fonts.clone_strings(),
            minor_script_fonts: scheme.minor_script_fonts.clone_strings(),
        },
        fonts: list,
    };
    assert(r.fonts@ == list@);
    r
}

/// Some paragraph of `b` names `name` as its bullet font or as a run's
/// Latin, East-Asian or complex-script typeface.
pub open spec fn body_mentions(b: TextBodyFonts, name: Seq<char>) -> bool {
    exists|k: int|
        0 <= k < b.paragraphs@.len() && {
            let para = #[trigger] b.paragraphs@[k];
            ||| (para.bullet_font matches Some(f) && f@ == name)
            ||| exists|j: int|
                0 <= j < para.runs@.len() && {
                    let run = #[trigger] para.runs@[j];
                    ||| (run.font_family matches Some(f) && f@ == name)
                    ||| (run.font_family_ea matches Some(f) && f@ == name)
                    ||| (run.font_family_cs matches Some(f) && f@ == name)
                }
        }
}

/// The element names `name` in its text: a shape through its body, a
/// table through any cell's body, a group through any child.
pub open spec fn element_mentions(el: ElementFonts, name: Seq<char>) -> bool
    decreases el,
{
    match el {
        ElementFonts::Shape(Some(b)) => body_mentions(b, name),
        ElementFonts::Shape(None) => false,
        ElementFonts::Table(rows) => exists|r: int, c: int|
            0 <= r < rows@.len() && 0 <= c < rows@[r]@.len() && (#[trigger] rows@[r]@[c] matches Some(
                b,
            ) && body_mentions(b, name)),
        ElementFonts::Group(children) => exists|c: int|
            0 <= c < children@.len() && element_mentions(#[trigger] children@[c], name),
        ElementFonts::NoText => false,
    }
}

/// Some element of `elements` names `name` in its text.
pub open spec fn elements_mention(elements: Seq<ElementFonts>, name: Seq<char>) -> bool {
    exists|e: int| 0 <= e < elements.len() && element_mentions(#[trigger] elements[e], name)
}

proof fn lemma_names_over_contains<T>(s: Seq<T>, f: spec_fn(T) -> Set<Seq<char>>, k: int, x: Seq<char>)
    requires
        0 <= k < s.len(),
        f(s[k]).contains(x),
    ensures
        names_over(s, f).contains(x),
    decreases s.len(),
{
    if k < s.len() - 1 {
        assert(s.drop_last()[k] == s[k]);
        lemma_names_over_contains(s.drop_last(), f, k, x);
    }
}

proof fn lemma_body_mentions(b: TextBodyFonts, name: Seq<char>)
    requires
        body_mentions(b, name),
    ensures
        body_names(b).contains(name),
{
    let k = choose|k: int|
        0 <= k < b.paragraphs@.len() && {
            let para = #[trigger] b.paragraphs@[k];
            ||| (para.bullet_font matches Some(f) && f@ == name)
            ||| exists|j: int|
                0 <= j < para.runs@.len() && {
                    let run = #[trigger] para.runs@[j];
                    ||| (run.font_family matches Some(f) && f@ == name)
                    ||| (run.font_family_ea matches Some(f) && f@ == name)
                    ||| (run.font_family_cs matches Some(f) && f@ == name)
                }
        };
    let para = b.paragraphs@[k];
    if !(para.bullet_font matches Some(f) && f@ == name) {
        let j = choose|j: int|
            0 <= j < para.runs@.len() && {
                let run = #[trigger] para.runs@[j];
                ||| (run.font_family matches Some(f) && f@ == name)
                ||| (run.font_family_ea matches Some(f) && f@ == name)
                ||| (run.font_family_cs matches Some(f) && f@ == name)
            };
        let fr = |r: RunFonts| run_names(r);
        assert(run_names(para.runs@[j]).contains(name));
        lemma_names_over_contains(para.runs@, fr, j, name);
    }
    assert(paragraph_names(para).contains(name));
    let fp = |p: ParagraphFonts| paragraph_names(p);
    lemma_names_over_contains(b.paragraphs@, fp, k, name);
}

proof fn lemma_element_mentions(el: ElementFonts, name: Seq<char>)
    requires
        element_mentions(el, name),
    ensures
        elements_names(seq![el]).contains(name),
    decreases el,
{
    assert(seq![el].drop_last() =~= Seq::<ElementFonts>::empty());
    match el {
        ElementFonts::Shape(Some(b)) => {
            lemma_body_mentions(b, name);
        },
        ElementFonts::Table(rows) => {
            let (r, c) = choose|r: int, c: int|
                0 <= r < rows@.len() && 0 <= c < rows@[r]@.len() && (#[trigger] rows@[r]@[c] matches Some(
                    b,
                ) && body_mentions(b, name));
            if let Some(b) = rows@[r]@[c] {
                lemma_body_mentions(b, name);
            }
            let fc = |cell: Option<TextBodyFonts>| opt_body_names(cell);
            lemma_names_over_contains(rows@[r]@, fc, c, name);
            let fr = |row: Vec<Option<TextBodyFonts>>| row_names(row@);
            lemma_names_over_contains(rows@, fr, r, name);
        },
        ElementFonts::Group(children) => {
            let c = choose|c: int| 0 <= c < children@.len() && element_mentions(#[trigger] children@[c], name);
            lemma_element_mentions(children@[c], name);
            lemma_elements_contains(children@, c, name);
        },
        _ => {},
    }
}

proof fn lemma_elements_contains(s: Seq<ElementFonts>, e: int, name: Seq<char>)
    requires
        0 <= e < s.len(),
        elements_names(seq![s[e]]).contains(name),
    ensures
        elements_names(s).contains(name),
    decreases s.len(),
{
    let one = seq![s[e]];
    assert(one.drop_last() =~= Seq::<ElementFonts>::empty());
    assert(one.last() == s[e]);
    assert(elements_names(Seq::<ElementFonts>::empty()) == Set::<Seq<char>>::empty());
    if e < s.len() - 1 {
        assert(s.drop_last()[e] == s[e]);
        lemma_elements_contains(s.drop_last(), e, name);
    } else {
        assert(s.last() == s[e]);
    }
}

proof fn lemma_elements_mention(s: Seq<ElementFonts>, name: Seq<char>)
    requires
        elements_mention(s, name),
    ensures
        elements_names(s).contains(name),
{
    let e = choose|e: int| 0 <= e < s.len() && element_mentions(#[trigger] s[e], name);
    lemma_element_mentions(s[e], name);
    lemma_elements_contains(s, e, name);
}

/// Every font a presentation uses is collected: each face the theme's
/// font scheme names, and every bullet or run typeface named by any
/// element (a shape, a table cell, or a group's child at any depth) of
/// any rendered slide, whether the element belongs to the slide itself,
/// to its layout or to its master.
pub proof fn law_used_fonts_cover_slide_layout_and_master(
    p: PresentationFonts,
    i: int,
    name: Seq<char>,
)
    requires
        0 <= i < p.slides@.len(),
    ensures
        presentation_names(p).contains(p.font_scheme.major_font@),
        presentation_names(p).contains(p.font_scheme.minor_font@),
        p.font_scheme.major_font_ea matches Some(f) ==> presentation_names(p).contains(f@),
        p.font_scheme.minor_font_ea matches Some(f) ==> presentation_names(p).contains(f@),
        p.font_scheme.major_font_cs matches Some(f) ==> presentation_names(p).contains(f@),
        p.font_scheme.minor_font_cs matches Some(f) ==> presentation_names(p).contains(f@),
        elements_mention(p.slides@[i].slide@, name) ==> presentation_names(p).contains(name),
        elements_mention(p.slides@[i].layout@, name) ==> presentation_names(p).contains(name),
        elements_mention(p.slides@[i].master@, name) ==> presentation_names(p).contains(name),
{
    let sl = p.slides@[i];
    let fs = |s: SlideFonts| slide_names(s);
    if elements_mention(sl.slide@, name) {
        lemma_elements_mention(sl.slide@, name);
    }
    if elements_mention(sl.layout@, name) {
        lemma_elements_mention(sl.layout@, name);
    }
    if elements_mention(sl.master@, name) {
        lemma_elements_mention(sl.master@, name);
    }
    if slide_names(sl).contains(name) {
        lemma_names_over_contains(p.slides@, fs, i, name);
    }
    let t = theme_font_names(p.font_scheme);
    assert(t.contains(p.font_scheme.major_font@));
    assert(t.contains(p.font_scheme.minor_font@));
    if let Some(f) = p.font_scheme.major_font_ea {
        assert(t.contains(f@));
    }
    if let Some(f) = p.font_scheme.minor_font_ea {
        assert(t.contains(f@));
    }
    if let Some(f) = p.font_scheme.major_font_cs {
        assert(t.contains(f@));
    }
    if let Some(f) = p.font_scheme.minor_font_cs {
        assert(t.contains(f@));
    }
}

} // verus!
