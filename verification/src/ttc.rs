//! TrueType Collection (TTC) byte-level helpers: recognise a collection,
//! count its faces, and cut each face out as a standalone TTF/OTF.
use vstd::prelude::*;

use crate::bytes::{be16_bytes, be32_bytes, pow2, push_slice, push_zeros, read_u16, read_u32, u16_be, u32_be, zeros};

verus! {

/// `data` starts with the `ttcf` tag.
pub open spec fn ttc_tag_at_start(data: Seq<u8>) -> bool {
    &&& data.len() >= 4
    &&& data[0] == 0x74u8
    &&& data[1] == 0x74u8
    &&& data[2] == 0x63u8
    &&& data[3] == 0x66u8
}

/// Whether `data` is a TTC container (starts with `ttcf`).
pub fn is_ttc(data: &[u8]) -> (r: bool)
    ensures
        r == ttc_tag_at_start(data@),
{
    data.len() >= 4 && data[0] == 0x74 && data[1] == 0x74 && data[2] == 0x63 && data[3] == 0x66
}

/// Face count of a TTC whose header and offset table fit in `data`.
pub open spec fn ttc_face_count_of(data: Seq<u8>) -> Option<u32> {
    if ttc_tag_at_start(data) && data.len() >= 12 && 12 + 4 * u32_be(data, 8) <= data.len() {
        Some(u32_be(data, 8) as u32)
    } else {
        None
    }
}

/// Number of faces in `data` if it is a TTC whose 12-byte header and
/// per-face offset table fit in the buffer.
pub fn ttc_face_count(data: &[u8]) -> (r: Option<u32>)
    ensures
        r == ttc_face_count_of(data@),
{
    if !is_ttc(data) || data.len() < 12 {
        return None;
    }
    let num_fonts = match read_u32(data, 8) {
        Some(v) => v,
        None => return None,
    };
    let table = match (num_fonts as usize).checked_mul(4) {
        Some(v) => v,
        None => return None,
    };
    let header_end = match table.checked_add(12) {
        Some(v) => v,
        None => return None,
    };
    if data.len() < header_end {
        return None;
    }
    Some(num_fonts)
}

/// `n` rounded up to a multiple of four.
pub open spec fn align4_of(n: int) -> int {
    ((n + 3) / 4) * 4
}

/// Rounds `n` up to a multiple of four.
pub fn align4(n: usize) -> (r: usize)
    requires
        n + 3 <= usize::MAX,
    ensures
        r == align4_of(n as int),
{
    ((n + 3) / 4) * 4
}

/// `floor(log2(n))` for `n >= 1`.
pub open spec fn log2_floor(n: nat) -> nat
    decreases n,
{
    if n <= 1 {
        0
    } else {
        1 + log2_floor(n / 2)
    }
}

proof fn lemma_log2_unique(e: nat, m: nat)
    requires
        m >= 1,
        pow2(e) <= m < pow2(e + 1),
    ensures
        e == log2_floor(m),
    decreases e,
{
    if e == 0 {
        assert(pow2(1) == 2) by {
            reveal_with_fuel(pow2, 2);
        }
    } else {
        assert(pow2(e) == 2 * pow2((e - 1) as nat));
        assert(pow2(e + 1) == 2 * pow2(e));
        assert(pow2((e - 1) as nat) >= 1) by {
            lemma_pow2_pos((e - 1) as nat);
        }
        lemma_log2_unique((e - 1) as nat, m / 2);
    }
}

proof fn lemma_pow2_pos(e: nat)
    ensures
        pow2(e) >= 1,
    decreases e,
{
    if e > 0 {
        lemma_pow2_pos((e - 1) as nat);
    }
}

/// The `searchRange` / `entrySelector` / `rangeShift` header fields for
/// `nt` tables: with `e = floor(log2(max(nt, 1)))`, they are `16 * 2^e`,
/// `e` and `16 * nt - 16 * 2^e` (0 when `nt` is 0).
pub open spec fn offset_table_fields_of(nt: int) -> (int, int, int) {
    let m: nat = if nt <= 1 {
        1
    } else {
        nt as nat
    };
    let e = log2_floor(m);
    let sr = 16 * pow2(e);
    (sr as int, e as int, if nt == 0 {
        0
    } else {
        16 * nt - sr
    })
}

/// Computes the offset-table `searchRange`, `entrySelector` and
/// `rangeShift` for `num_tables` tables.
///
/// The doubling search runs with saturating 16-bit arithmetic; from 4096
/// tables on, `num_tables * 16` saturates and the search would never
/// stop, so such counts are outside this function's domain.
pub fn calc_offset_table_fields(num_tables: u16) -> (r: (u16, u16, u16))
    requires
        num_tables < 4096,
    ensures
        (r.0 as int, r.1 as int, r.2 as int) == offset_table_fields_of(num_tables as int),
{
    let mut search_range: u16 = 16;
    let mut entry_selector: u16 = 0;
    let limit: u16 = num_tables * 16;
    let ghost m: nat = if num_tables <= 1 {
        1
    } else {
        num_tables as nat
    };
    assert(pow2(0) == 1);
    while search_range <= 32767 && search_range * 2 <= limit
        invariant
            limit == 16 * num_tables,
            num_tables < 4096,
            m == (if num_tables <= 1 {
                1
            } else {
                num_tables as nat
            }),
            search_range as nat == 16 * pow2(entry_selector as nat),
            pow2(entry_selector as nat) <= m,
            entry_selector <= 12,
        decreases 65536 - search_range,
    {
        search_range = search_range * 2;
        entry_selector = entry_selector + 1;
        assert(pow2(entry_selector as nat) == 2 * pow2((entry_selector - 1) as nat));
        proof {
            if entry_selector > 12 {
                assert(search_range > 65535) by {
                    lemma_pow2_mono(13, entry_selector as nat);
                    assert(pow2(13) == 8192) by {
                        reveal_with_fuel(pow2, 14);
                    }
                }
            }
        }
    }
    proof {
        assert(pow2((entry_selector + 1) as nat) == 2 * pow2(entry_selector as nat));
        if search_range > 32767 {
            assert(2 * (search_range as int) > limit);
        }
        lemma_log2_unique(entry_selector as nat, m);
    }
    let range_shift: u16 = if limit >= search_range {
        limit - search_range
    } else {
        0
    };
    (search_range, entry_selector, range_shift)
}

proof fn lemma_pow2_mono(a: nat, b: nat)
    requires
        a <= b,
    ensures
        pow2(a) <= pow2(b),
    decreases b,
{
    if a < b {
        lemma_pow2_mono(a, (b - 1) as nat);
        lemma_pow2_pos((b - 1) as nat);
    }
}

/// Number of tables of the face at `off`.
pub open spec fn face_num_tables(d: Seq<u8>, off: int) -> int {
    u16_be(d, off + 4)
}

/// Start of the table record `t` of the face at `off`.
pub open spec fn table_record_at(off: int, t: int) -> int {
    off + 12 + 16 * t
}

/// Source offset of table `t`.
pub open spec fn table_offset(d: Seq<u8>, off: int, t: int) -> int {
    u32_be(d, table_record_at(off, t) + 8)
}

/// Length of table `t`.
pub open spec fn table_length(d: Seq<u8>, off: int, t: int) -> int {
    u32_be(d, table_record_at(off, t) + 12)
}

/// Table `t`'s data lies inside `d`.
pub open spec fn table_in_bounds(d: Seq<u8>, off: int, t: int) -> bool {
    table_offset(d, off, t) <= d.len() && table_length(d, off, t) <= d.len() - table_offset(
        d,
        off,
        t,
    )
}

/// The face at `off` has a header, a nonzero table count below 4096,
/// a table directory inside `d`, and every table inside `d`.
pub open spec fn face_valid(d: Seq<u8>, off: int) -> bool {
    &&& 0 <= off
    &&& off + 12 <= d.len()
    &&& face_num_tables(d, off) != 0
    &&& face_num_tables(d, off) < 4096
    &&& table_record_at(off, face_num_tables(d, off)) <= d.len()
    &&& forall|t: int| 0 <= t < face_num_tables(d, off) ==> #[trigger] table_in_bounds(d, off, t)
}

/// Total padded size of the first `k` tables.
pub open spec fn tables_size(d: Seq<u8>, off: int, k: nat) -> int
    decreases k,
{
    if k == 0 {
        0
    } else {
        tables_size(d, off, (k - 1) as nat) + align4_of(table_length(d, off, k - 1))
    }
}

/// Offset of table `t` inside the extracted face.
pub open spec fn new_table_offset(d: Seq<u8>, off: int, t: int) -> int {
    12 + 16 * face_num_tables(d, off) + tables_size(d, off, t as nat)
}

/// A table record rewritten to point at `new_offset`: the tag and
/// checksum of the source record at `r`, the new offset (modulo `2^32`)
/// and the source length.
pub open spec fn record_bytes(d: Seq<u8>, r: int, new_offset: int) -> Seq<u8> {
    d.subrange(r, r + 8) + be32_bytes(new_offset) + d.subrange(r + 12, r + 16)
}

/// The first `k` rewritten table records.
pub open spec fn face_records(d: Seq<u8>, off: int, k: nat) -> Seq<u8>
    decreases k,
{
    if k == 0 {
        Seq::empty()
    } else {
        face_records(d, off, (k - 1) as nat) + record_bytes(
            d,
            table_record_at(off, k - 1),
            new_table_offset(d, off, k - 1),
        )
    }
}

/// The data of the first `k` tables, each padded with zeros to four bytes.
pub open spec fn face_tables(d: Seq<u8>, off: int, k: nat) -> Seq<u8>
    decreases k,
{
    if k == 0 {
        Seq::empty()
    } else {
        let o = table_offset(d, off, k - 1);
        let l = table_length(d, off, k - 1);
        face_tables(d, off, (k - 1) as nat) + d.subrange(o, o + l) + zeros((align4_of(l) - l) as nat)
    }
}

/// The standalone font for the face at `off`: offset table (version and
/// table count as in the source, recomputed search fields), rewritten
/// table records, then the table data.
pub open spec fn face_bytes(d: Seq<u8>, off: int) -> Seq<u8> {
    let nt = face_num_tables(d, off);
    let f = offset_table_fields_of(nt);
    d.subrange(off, off + 6) + be16_bytes(f.0) + be16_bytes(f.1) + be16_bytes(f.2) + face_records(
        d,
        off,
        nt as nat,
    ) + face_tables(d, off, nt as nat)
}

/// The extracted face at `off`, when it is valid and its size fits a
/// `usize`.
pub open spec fn single_face_of(d: Seq<u8>, off: int) -> Option<Seq<u8>> {
    if face_valid(d, off) && new_table_offset(d, off, face_num_tables(d, off)) <= usize::MAX {
        Some(face_bytes(d, off))
    } else {
        None
    }
}

proof fn lemma_tables_size_mono(d: Seq<u8>, off: int, a: nat, b: nat)
    requires
        a <= b,
    ensures
        0 <= tables_size(d, off, a) <= tables_size(d, off, b),
    decreases b,
{
    if b > 0 {
        if a < b {
            lemma_tables_size_mono(d, off, a, (b - 1) as nat);
        } else {
            lemma_tables_size_mono(d, off, (b - 1) as nat, (b - 1) as nat);
        }
        assert(align4_of(table_length(d, off, b - 1)) >= 0);
    }
}

/// Reads the table directory of the face at `off`, checking that every
/// table lies inside `d`; returns the tables' offsets and lengths.
fn read_table_directory(d: &[u8], font_offset: usize, nt: usize) -> (r: Option<(Vec<usize>, Vec<usize>)>)
    requires
        nt == face_num_tables(d@, font_offset as int),
        font_offset + 12 + 16 * nt <= d@.len(),
    ensures
        match r {
            Some(v) => {
                &&& v.0@.len() == nt
                &&& v.1@.len() == nt
                &&& forall|t: int|
                    0 <= t < nt ==> #[trigger] table_in_bounds(d@, font_offset as int, t)
                &&& forall|t: int|
                    0 <= t < nt ==> #[trigger] v.0@[t] == table_offset(d@, font_offset as int, t)
                &&& forall|t: int|
                    0 <= t < nt ==> #[trigger] v.1@[t] == table_length(d@, font_offset as int, t)
            },
            None => exists|t: int|
                0 <= t < nt && !#[trigger] table_in_bounds(d@, font_offset as int, t),
        },
{
    let dlen = d.len();
    let ghost off = font_offset as int;
    let mut offsets: Vec<usize> = Vec::new();
    let mut lengths: Vec<usize> = Vec::new();
    let mut i: usize = 0;
    while i < nt
        invariant
            i <= nt,
            off == font_offset,
            dlen == d@.len(),
            font_offset + 12 + 16 * nt <= dlen,
            offsets@.len() == i,
            lengths@.len() == i,
            forall|t: int| 0 <= t < i ==> #[trigger] table_in_bounds(d@, off, t),
            forall|t: int| 0 <= t < i ==> #[trigger] offsets@[t] == table_offset(d@, off, t),
            forall|t: int| 0 <= t < i ==> #[trigger] lengths@[t] == table_length(d@, off, t),
        decreases nt - i,
    {
        let rec_offset = font_offset + 12 + 16 * i;
        let table_offset_v = match read_u32(d, rec_offset + 8) {
            Some(v) => v as usize,
            None => return None,
        };
        let table_length_v = match read_u32(d, rec_offset + 12) {
            Some(v) => v as usize,
            None => return None,
        };
        if table_offset_v > dlen || table_length_v > dlen - table_offset_v {
            assert(!table_in_bounds(d@, off, i as int));
            return None;
        }
        offsets.push(table_offset_v);
        lengths.push(table_length_v);
        i = i + 1;
    }
    Some((offsets, lengths))
}

/// Size of the extracted face: the directory plus every table padded to
/// four bytes; `None` when it exceeds `usize::MAX`.
fn face_total_size(data: &[u8], font_offset: usize, lengths: &Vec<usize>, nt: usize) -> (r: Option<usize>)
    requires
        nt == face_num_tables(data@, font_offset as int),
        nt < 4096,
        lengths@.len() == nt,
        forall|t: int| 0 <= t < nt ==> #[trigger] lengths@[t] == table_length(data@, font_offset as int, t),
    ensures
        match r {
            Some(v) => v == new_table_offset(data@, font_offset as int, nt as int),
            None => new_table_offset(data@, font_offset as int, nt as int) > usize::MAX,
        },
{
    let mut total: usize = 12 + 16 * nt;
    let mut k: usize = 0;
    while k < nt
        invariant
            k <= nt,
            nt == face_num_tables(data@, font_offset as int),
            nt < 4096,
            lengths@.len() == nt,
            forall|t: int| 0 <= t < nt ==> #[trigger] lengths@[t] == table_length(data@, font_offset as int, t),
            total == 12 + 16 * nt + tables_size(data@, font_offset as int, k as nat),
        decreases nt - k,
    {
        let l = lengths[k];
        proof {
            lemma_tables_size_mono(data@, font_offset as int, (k + 1) as nat, nt as nat);
        }
        if l > usize::MAX - 3 {
            return None;
        }
        let a = align4(l);
        total = match total.checked_add(a) {
            Some(t) => t,
            None => return None,
        };
        k = k + 1;
    }
    Some(total)
}

/// Cuts the face whose offset table starts at `font_offset` out of the
/// collection `data` as a standalone font.
///
/// A face with 4096 or more tables is rejected: recomputing its search
/// fields would not terminate (see [`calc_offset_table_fields`]).
#[verifier::rlimit(30)]
pub fn extract_single_face(data: &[u8], font_offset: usize) -> (r: Option<Vec<u8>>)
    ensures
        match r {
            Some(v) => single_face_of(data@, font_offset as int) == Some(v@),
            None => single_face_of(data@, font_offset as int) is None,
        },
{
    let d = data;
    let dlen = d.len();
    if font_offset > dlen || dlen - font_offset < 12 {
        return None;
    }
    let num_tables = match read_u16(d, font_offset + 4) {
        Some(v) => v,
        None => return None,
    };
    if num_tables == 0 || num_tables >= 4096 {
        return None;
    }
    let nt = num_tables as usize;
    if 16 * nt > dlen - (font_offset + 12) {
        return None;
    }
    let ghost off = font_offset as int;
    let (offsets, lengths) = match read_table_directory(d, font_offset, nt) {
        Some(v) => v,
        None => return None,
    };
    assert(face_valid(d@, off));
    let total = match face_total_size(d, font_offset, &lengths, nt) {
        Some(t) => t,
        None => return None,
    };
    let (search_range, entry_selector, range_shift) = calc_offset_table_fields(num_tables);
    let mut out: Vec<u8> = Vec::new();
    push_slice(&mut out, &d[font_offset..font_offset + 6]);
    push_u16_be(&mut out, search_range);
    push_u16_be(&mut out, entry_selector);
    push_u16_be(&mut out, range_shift);
    let ghost header = out@;
    write_table_records(&mut out, d, font_offset, nt, &lengths);
    let ghost with_records = out@;
    write_table_data(&mut out, d, font_offset, nt, &offsets, &lengths, total);
    assert(out@ =~= face_bytes(d@, off));
    Some(out)
}

/// Appends one rewritten table record: the source tag and checksum, the
/// new offset (modulo `2^32`) and the source length.
fn push_table_record(out: &mut Vec<u8>, d: &[u8], rec_offset: usize, new_offset: usize)
    requires
        rec_offset + 16 <= d.len(),
    ensures
        final(out)@ == old(out)@ + record_bytes(d@, rec_offset as int, new_offset as int),
{
    let ghost start = out@;
    push_slice(out, &d[rec_offset..rec_offset + 8]);
    let wrapped: u32 = ((new_offset as u64) % 0x1_0000_0000u64) as u32;
    push_u32_be(out, wrapped);
    proof {
        lemma_be32_mod(new_offset as u64);
    }
    push_slice(out, &d[rec_offset + 12..rec_offset + 16]);
    assert(out@ =~= start + record_bytes(d@, rec_offset as int, new_offset as int));
}

proof fn lemma_face_records_step(d: Seq<u8>, off: int, t: nat)
    ensures
        face_records(d, off, t + 1) == face_records(d, off, t) + record_bytes(
            d,
            table_record_at(off, t as int),
            new_table_offset(d, off, t as int),
        ),
        new_table_offset(d, off, (t + 1) as int) == new_table_offset(d, off, t as int) + align4_of(
            table_length(d, off, t as int),
        ),
{
}

proof fn lemma_next_table_offset(d: Seq<u8>, off: int, t: nat, nt: nat)
    requires
        t < nt,
    ensures
        new_table_offset(d, off, (t + 1) as int) == new_table_offset(d, off, t as int) + align4_of(
            table_length(d, off, t as int),
        ),
        new_table_offset(d, off, (t + 1) as int) <= new_table_offset(d, off, nt as int),
{
    lemma_tables_size_mono(d, off, (t + 1) as nat, nt);
}

#[verifier::spinoff_prover]
#[verifier::rlimit(60)]
fn write_table_records(out: &mut Vec<u8>, d: &[u8], font_offset: usize, nt: usize, lengths: &Vec<usize>)
    requires
        nt == face_num_tables(d@, font_offset as int),
        nt < 4096,
        face_valid(d@, font_offset as int),
        new_table_offset(d@, font_offset as int, nt as int) <= usize::MAX,
        lengths@.len() == nt,
        forall|j: int| 0 <= j < nt ==> #[trigger] lengths@[j] == table_length(d@, font_offset as int, j),
    ensures
        final(out)@ == old(out)@ + face_records(d@, font_offset as int, nt as nat),
{
    let ghost off = font_offset as int;
    let ghost start = out@;
    let ghost total = new_table_offset(d@, off, nt as int);
    assert(table_record_at(off, nt as int) <= d@.len());
    let dlen = d.len();
    let mut current: usize = 12 + 16 * nt;
    let mut t: usize = 0;
    while t < nt
        invariant
            t <= nt,
            dlen == d@.len(),
            nt == face_num_tables(d@, off),
            nt < 4096,
            off == font_offset,
            font_offset + 12 + 16 * nt <= d@.len(),
            total == new_table_offset(d@, off, nt as int),
            total <= usize::MAX,
            lengths@.len() == nt,
            forall|j: int| 0 <= j < nt ==> #[trigger] lengths@[j] == table_length(d@, off, j),
            current == new_table_offset(d@, off, t as int),
            out@ == start + face_records(d@, off, t as nat),
        decreases nt - t,
    {
        let rec_offset = font_offset + 12 + 16 * t;
        proof {
            lemma_next_table_offset(d@, off, t as nat, nt as nat);
        }
        push_table_record(out, d, rec_offset, current);
        proof {
            lemma_face_records_step(d@, off, t as nat);
            let fr = face_records(d@, off, t as nat);
            let rb = record_bytes(d@, rec_offset as int, current as int);
            assert((start + fr) + rb =~= start + (fr + rb));
        }
        let l = lengths[t];
        current = current + align4(l);
        t = t + 1;
    }
}

fn write_table_data(
    out: &mut Vec<u8>,
    d: &[u8],
    font_offset: usize,
    nt: usize,
    offsets: &Vec<usize>,
    lengths: &Vec<usize>,
    total: usize,
)
    requires
        nt == face_num_tables(d@, font_offset as int),
        face_valid(d@, font_offset as int),
        total == new_table_offset(d@, font_offset as int, nt as int),
        offsets@.len() == nt,
        lengths@.len() == nt,
        forall|j: int| 0 <= j < nt ==> #[trigger] lengths@[j] == table_length(d@, font_offset as int, j),
        forall|j: int| 0 <= j < nt ==> #[trigger] offsets@[j] == table_offset(d@, font_offset as int, j),
    ensures
        final(out)@ == old(out)@ + face_tables(d@, font_offset as int, nt as nat),
{
    let ghost off = font_offset as int;
    let ghost start = out@;
    let dlen = d.len();
    let mut u: usize = 0;
    while u < nt
        invariant
            u <= nt,
            nt == face_num_tables(d@, off),
            off == font_offset,
            face_valid(d@, off),
            offsets@.len() == nt,
            lengths@.len() == nt,
            forall|j: int| 0 <= j < nt ==> #[trigger] lengths@[j] == table_length(d@, off, j),
            forall|j: int| 0 <= j < nt ==> #[trigger] offsets@[j] == table_offset(d@, off, j),
            total == new_table_offset(d@, off, nt as int),
            dlen == d@.len(),
            out@ == start + face_tables(d@, off, u as nat),
        decreases nt - u,
    {
        let o = offsets[u];
        let l = lengths[u];
        assert(table_in_bounds(d@, off, u as int));
        proof {
            lemma_tables_size_mono(d@, off, (u + 1) as nat, nt as nat);
        }
        push_slice(out, &d[o..o + l]);
        assert(tables_size(d@, off, (u + 1) as nat) == tables_size(d@, off, u as nat) + align4_of(
            l as int,
        ));
        proof {
            lemma_tables_size_mono(d@, off, u as nat, u as nat);
        }
        assert(align4_of(l as int) <= total);
        assert(total <= usize::MAX);
        assert(l + 3 <= usize::MAX);
        let a = align4(l);
        push_zeros(out, a - l);
        u = u + 1;
        assert(out@ =~= start + face_tables(d@, off, u as nat));
    }
}

proof fn lemma_be32_mod(v: u64)
    ensures
        be32_bytes((v % 0x1_0000_0000) as int) == be32_bytes(v as int),
{
    let w = v % 0x1_0000_0000;
    assert(w % 256 == v % 256) by (bit_vector)
        requires
            w == v % 0x1_0000_0000,
    ;
    assert((w / 256) % 256 == (v / 256) % 256) by (bit_vector)
        requires
            w == v % 0x1_0000_0000,
    ;
    assert((w / 65536) % 256 == (v / 65536) % 256) by (bit_vector)
        requires
            w == v % 0x1_0000_0000,
    ;
    assert((w / 16777216) % 256 == (v / 16777216) % 256) by (bit_vector)
        requires
            w == v % 0x1_0000_0000,
    ;
}

/// Appends the big-endian bytes of `v`.
pub fn push_u32_be(out: &mut Vec<u8>, v: u32)
    ensures
        final(out)@ == old(out)@ + be32_bytes(v as int),
{
    out.push((v / 16777216) as u8);
    out.push(((v / 65536) % 256) as u8);
    out.push(((v / 256) % 256) as u8);
    out.push((v % 256) as u8);
    assert(out@ =~= old(out)@ + be32_bytes(v as int));
}

/// Appends the big-endian bytes of `v`.
pub fn push_u16_be(out: &mut Vec<u8>, v: u16)
    ensures
        final(out)@ == old(out)@ + be16_bytes(v as int),
{
    out.push((v / 256) as u8);
    out.push((v % 256) as u8);
    assert(out@ =~= old(out)@ + be16_bytes(v as int));
}

/// The faces extracted from the first `k` entries of the collection's
/// offset table, skipping those that fail.
pub open spec fn faces_upto(d: Seq<u8>, k: nat) -> Seq<Seq<u8>>
    decreases k,
{
    if k == 0 {
        Seq::empty()
    } else {
        let prev = faces_upto(d, (k - 1) as nat);
        match single_face_of(d, u32_be(d, 12 + 4 * (k - 1))) {
            Some(f) => prev.push(f),
            None => prev,
        }
    }
}

/// Every face of the collection `d` that extracts cleanly, in order;
/// empty when `d` is not a well-formed TTC.
pub open spec fn ttc_faces_of(d: Seq<u8>) -> Seq<Seq<u8>> {
    match ttc_face_count_of(d) {
        Some(n) => faces_upto(d, n as nat),
        None => Seq::empty(),
    }
}

/// The byte contents of each vector.
pub open spec fn byte_vecs_view(v: Seq<Vec<u8>>) -> Seq<Seq<u8>> {
    v.map_values(|x: Vec<u8>| x@)
}

/// Extracts every face of a TTC as a standalone TTF/OTF byte vector;
/// faces whose table records are corrupt are skipped.
pub fn extract_ttc_faces(data: &[u8]) -> (r: Vec<Vec<u8>>)
    ensures
        byte_vecs_view(r@) == ttc_faces_of(data@),
{
    let num_fonts = match ttc_face_count(data) {
        Some(n) => n,
        None => {
            assert(byte_vecs_view(Seq::<Vec<u8>>::empty()) =~= Seq::<Seq<u8>>::empty());
            return Vec::new();
        },
    };
    let mut out: Vec<Vec<u8>> = Vec::new();
    let mut i: u32 = 0;
    let dlen = data.len();
    while i < num_fonts
        invariant
            i <= num_fonts,
            dlen == data@.len(),
            ttc_face_count_of(data@) == Some(num_fonts),
            12 + 4 * num_fonts <= data@.len(),
            byte_vecs_view(out@) == faces_upto(data@, i as nat),
        decreases num_fonts - i,
    {
        let font_offset = match read_u32(data, 12 + (i as usize) * 4) {
            Some(v) => v,
            None => {
                i = i + 1;
                continue ;
            },
        };
        let ghost before = out@;
        match extract_single_face(data, font_offset as usize) {
            Some(face) => {
                out.push(face);
                assert(byte_vecs_view(out@) =~= byte_vecs_view(before).push(out@.last()@));
            },
            None => {},
        }
        i = i + 1;
    }
    out
}

/// The first face that extracts from the collection, if any.
pub fn extract_first_ttc_face(data: &[u8]) -> (r: Option<Vec<u8>>)
    ensures
        match r {
            Some(v) => ttc_faces_of(data@).len() > 0 && v@ == ttc_faces_of(data@)[0],
            None => ttc_faces_of(data@).len() == 0,
        },
{
    let mut faces = extract_ttc_faces(data);
    if faces.len() == 0 {
        None
    } else {
        let first = faces.swap_remove(0);
        assert(byte_vecs_view(faces@).len() == faces@.len());
        Some(first)
    }
}

proof fn lemma_face_records_len(d: Seq<u8>, off: int, k: nat)
    requires
        table_record_at(off, k as int) <= d.len(),
        off >= 0,
    ensures
        face_records(d, off, k).len() == 16 * k,
    decreases k,
{
    if k > 0 {
        lemma_face_records_len(d, off, (k - 1) as nat);
    }
}

proof fn lemma_face_records_at(d: Seq<u8>, off: int, k: nat, t: int)
    requires
        table_record_at(off, k as int) <= d.len(),
        off >= 0,
        0 <= t < k,
    ensures
        face_records(d, off, k).subrange(16 * t, 16 * t + 16) == record_bytes(
            d,
            table_record_at(off, t),
            new_table_offset(d, off, t),
        ),
    decreases k,
{
    let prev = face_records(d, off, (k - 1) as nat);
    let rb = record_bytes(d, table_record_at(off, k - 1), new_table_offset(d, off, k - 1));
    lemma_face_records_len(d, off, (k - 1) as nat);
    assert(rb.len() == 16);
    if t < k - 1 {
        lemma_face_records_at(d, off, (k - 1) as nat, t);
        assert((prev + rb).subrange(16 * t, 16 * t + 16) =~= prev.subrange(16 * t, 16 * t + 16));
    } else {
        assert((prev + rb).subrange(16 * t, 16 * t + 16) =~= rb);
    }
}

proof fn lemma_face_tables_len(d: Seq<u8>, off: int, k: nat)
    requires
        forall|t: int| 0 <= t < k ==> #[trigger] table_in_bounds(d, off, t),
    ensures
        face_tables(d, off, k).len() == tables_size(d, off, k),
    decreases k,
{
    if k > 0 {
        lemma_face_tables_len(d, off, (k - 1) as nat);
        assert(table_in_bounds(d, off, k - 1));
        let l = table_length(d, off, k - 1);
        assert(align4_of(l) >= l);
    }
}

proof fn lemma_face_tables_at(d: Seq<u8>, off: int, k: nat, t: int)
    requires
        forall|u: int| 0 <= u < k ==> #[trigger] table_in_bounds(d, off, u),
        0 <= t < k,
    ensures
        face_tables(d, off, k).subrange(
            tables_size(d, off, t as nat),
            tables_size(d, off, t as nat) + table_length(d, off, t),
        ) == d.subrange(table_offset(d, off, t), table_offset(d, off, t) + table_length(d, off, t)),
    decreases k,
{
    let prev = face_tables(d, off, (k - 1) as nat);
    let o = table_offset(d, off, k - 1);
    let l = table_length(d, off, k - 1);
    let piece = d.subrange(o, o + l) + zeros((align4_of(l) - l) as nat);
    lemma_face_tables_len(d, off, (k - 1) as nat);
    assert(table_in_bounds(d, off, k - 1));
    assert(align4_of(l) >= l);
    let a = tables_size(d, off, t as nat);
    let b = a + table_length(d, off, t);
    if t < k - 1 {
        lemma_face_tables_at(d, off, (k - 1) as nat, t);
        lemma_tables_size_mono(d, off, (t + 1) as nat, (k - 1) as nat);
        lemma_tables_size_mono(d, off, t as nat, t as nat);
        assert(table_in_bounds(d, off, t));
        assert(align4_of(table_length(d, off, t)) >= table_length(d, off, t));
        assert(tables_size(d, off, (t + 1) as nat) == a + align4_of(table_length(d, off, t)));
        assert(b <= prev.len());
        assert((prev + piece).subrange(a, b) =~= prev.subrange(a, b));
    } else {
        assert((prev + piece).subrange(a, b) =~= d.subrange(o, o + l));
    }
}

proof fn lemma_u32_be_of_bytes(v: int)
    requires
        0 <= v < 0x1_0000_0000,
    ensures
        u32_be(be32_bytes(v), 0) == v,
{
    let w = v as u32;
    assert(((w / 16777216) % 256) * 16777216 + ((w / 65536) % 256) * 65536 + ((w / 256) % 256)
        * 256 + w % 256 == w) by (bit_vector);
}

/// The layout of an extracted face: a 12-byte offset table, then the
/// records, then the tables.
proof fn lemma_face_bytes_parts(d: Seq<u8>, off: int)
    requires
        face_valid(d, off),
    ensures
        ({
            let nt = face_num_tables(d, off);
            let f = face_bytes(d, off);
            let r = face_records(d, off, nt as nat);
            &&& f.len() == new_table_offset(d, off, nt)
            &&& f.subrange(0, 6) == d.subrange(off, off + 6)
            &&& f.subrange(12, 12 + 16 * nt) == r
            &&& f.subrange(12 + 16 * nt, f.len() as int) == face_tables(d, off, nt as nat)
        }),
{
    let nt = face_num_tables(d, off);
    let fl = offset_table_fields_of(nt);
    let h = d.subrange(off, off + 6) + be16_bytes(fl.0) + be16_bytes(fl.1) + be16_bytes(fl.2);
    let r = face_records(d, off, nt as nat);
    let t = face_tables(d, off, nt as nat);
    lemma_face_records_len(d, off, nt as nat);
    lemma_face_tables_len(d, off, nt as nat);
    assert(h.len() == 12);
    let f = h + r + t;
    assert(f =~= face_bytes(d, off));
    assert(f.subrange(0, 6) =~= d.subrange(off, off + 6));
    assert(f.subrange(12, 12 + 16 * nt) =~= r);
    assert(f.subrange(12 + 16 * nt, f.len() as int) =~= t);
}

proof fn lemma_record_fields(f: Seq<u8>, ro: int, d: Seq<u8>, r: int, no: int)
    requires
        0 <= ro,
        ro + 16 <= f.len(),
        0 <= r,
        r + 16 <= d.len(),
        0 <= no < 0x1_0000_0000,
        f.subrange(ro, ro + 16) == record_bytes(d, r, no),
    ensures
        f.subrange(ro, ro + 8) == d.subrange(r, r + 8),
        u32_be(f, ro + 8) == no,
        u32_be(f, ro + 12) == u32_be(d, r + 12),
{
    let rb = record_bytes(d, r, no);
    assert(rb.len() == 16);
    assert(f.subrange(ro, ro + 8) =~= rb.subrange(0, 8));
    assert(rb.subrange(0, 8) =~= d.subrange(r, r + 8));
    lemma_u32_be_of_bytes(no);
    assert(rb.subrange(8, 12) =~= be32_bytes(no));
    assert(f[ro + 8] == rb[8] && f[ro + 9] == rb[9] && f[ro + 10] == rb[10] && f[ro + 11] == rb[11]);
    assert(f[ro + 12] == rb[12] && f[ro + 13] == rb[13] && f[ro + 14] == rb[14] && f[ro + 15] == rb[15]);
    assert(rb[12] == d[r + 12] && rb[13] == d[r + 13] && rb[14] == d[r + 14] && rb[15] == d[r + 15]);
}

proof fn lemma_extracted_record_bytes(d: Seq<u8>, off: int, t: int)
    requires
        face_valid(d, off),
        0 <= t < face_num_tables(d, off),
    ensures
        face_bytes(d, off).subrange(table_record_at(0, t), table_record_at(0, t) + 16) == record_bytes(
            d,
            table_record_at(off, t),
            new_table_offset(d, off, t),
        ),
        table_record_at(0, t) + 16 <= face_bytes(d, off).len(),
{
    let nt = face_num_tables(d, off);
    let f = face_bytes(d, off);
    lemma_face_bytes_parts(d, off);
    let ro = table_record_at(0, t);
    lemma_face_records_at(d, off, nt as nat, t);
    lemma_face_records_len(d, off, nt as nat);
    assert(f.subrange(ro, ro + 16) =~= f.subrange(12, 12 + 16 * nt).subrange(16 * t, 16 * t + 16));
}

proof fn lemma_extracted_record(d: Seq<u8>, off: int, t: int)
    requires
        face_valid(d, off),
        new_table_offset(d, off, face_num_tables(d, off)) < 0x1_0000_0000,
        0 <= t < face_num_tables(d, off),
    ensures
        ({
            let f = face_bytes(d, off);
            &&& f.subrange(table_record_at(0, t), table_record_at(0, t) + 8) == d.subrange(
                table_record_at(off, t),
                table_record_at(off, t) + 8,
            )
            &&& table_offset(f, 0, t) == new_table_offset(d, off, t)
            &&& table_length(f, 0, t) == table_length(d, off, t)
        }),
{
    let nt = face_num_tables(d, off);
    lemma_extracted_record_bytes(d, off, t);
    lemma_tables_size_mono(d, off, t as nat, nt as nat);
    lemma_record_fields(
        face_bytes(d, off),
        table_record_at(0, t),
        d,
        table_record_at(off, t),
        new_table_offset(d, off, t),
    );
}

proof fn lemma_extracted_table(d: Seq<u8>, off: int, t: int)
    requires
        face_valid(d, off),
        0 <= t < face_num_tables(d, off),
    ensures
        ({
            let f = face_bytes(d, off);
            let no = new_table_offset(d, off, t);
            let l = table_length(d, off, t);
            f.subrange(no, no + l) == d.subrange(table_offset(d, off, t), table_offset(d, off, t) + l)
        }),
{
    let nt = face_num_tables(d, off);
    let f = face_bytes(d, off);
    lemma_face_bytes_parts(d, off);
    let a = tables_size(d, off, t as nat);
    let l = table_length(d, off, t);
    let no = new_table_offset(d, off, t);
    lemma_face_tables_at(d, off, nt as nat, t);
    lemma_tables_size_mono(d, off, (t + 1) as nat, nt as nat);
    lemma_tables_size_mono(d, off, t as nat, t as nat);
    assert(table_in_bounds(d, off, t));
    assert(align4_of(l) >= l);
    assert(tables_size(d, off, (t + 1) as nat) == a + align4_of(l));
    lemma_face_tables_len(d, off, nt as nat);
    assert(f.subrange(no, no + l) =~= f.subrange(12 + 16 * nt, f.len() as int).subrange(a, a + l));
}

/// An extracted face reads back as a standalone font with the source
/// face's tables: its header holds the table count, each table record
/// keeps its tag, checksum and length and points at the table's new
/// place, and the bytes there are the source table's bytes. (Offsets
/// are stored modulo `2^32`, so the face's size must be below that.)
pub proof fn law_extracted_face_reads_back(d: Seq<u8>, off: int, t: int)
    requires
        single_face_of(d, off) is Some,
        new_table_offset(d, off, face_num_tables(d, off)) < 0x1_0000_0000,
        0 <= t < face_num_tables(d, off),
    ensures
        ({
            let f = single_face_of(d, off).unwrap();
            &&& f.len() == new_table_offset(d, off, face_num_tables(d, off))
            &&& face_num_tables(f, 0) == face_num_tables(d, off)
            &&& f.subrange(table_record_at(0, t), table_record_at(0, t) + 8) == d.subrange(
                table_record_at(off, t),
                table_record_at(off, t) + 8,
            )
            &&& table_offset(f, 0, t) == new_table_offset(d, off, t)
            &&& table_length(f, 0, t) == table_length(d, off, t)
            &&& f.subrange(table_offset(f, 0, t), table_offset(f, 0, t) + table_length(f, 0, t))
                == d.subrange(table_offset(d, off, t), table_offset(d, off, t) + table_length(d, off, t))
        }),
{
    let f = face_bytes(d, off);
    lemma_face_bytes_parts(d, off);
    assert(f[4] == f.subrange(0, 6)[4]);
    assert(f[5] == f.subrange(0, 6)[5]);
    lemma_extracted_record(d, off, t);
    lemma_extracted_table(d, off, t);
}

/// Whether face `index` of `data` parses, as `ttf_parser::Face::parse`
/// decides.
pub uninterp spec fn face_parses_at(data: Seq<u8>, index: u32) -> bool;

/// `ttf_parser::Face::parse(data, index).is_ok()`. The contract claims
/// only that the answer is a function of the bytes and the index.
#[verifier::external_body]
fn face_parses(data: &[u8], index: u32) -> (r: bool)
    ensures
        r == face_parses_at(data@, index),
{
    ttf_parser::Face::parse(data, index).is_ok()
}

/// The indices below `n` whose faces parse, in ascending order.
pub open spec fn parsing_indices(data: Seq<u8>, n: nat) -> Seq<u32>
    decreases n,
{
    if n == 0 {
        Seq::empty()
    } else {
        let acc = parsing_indices(data, (n - 1) as nat);
        if face_parses_at(data, (n - 1) as u32) {
            acc.push((n - 1) as u32)
        } else {
            acc
        }
    }
}

/// The faces of `data` that parse: face 0 of a plain font file when it
/// parses; for a collection, every index below its declared face count
/// that parses, in order. `None` when no face parses.
pub open spec fn parsed_face_indices_of(data: Seq<u8>) -> Option<Seq<u32>> {
    if !ttc_tag_at_start(data) {
        if face_parses_at(data, 0) {
            Some(seq![0u32])
        } else {
            None
        }
    } else {
        let n: nat = match ttc_face_count_of(data) {
            Some(c) => c as nat,
            None => 0,
        };
        let idx = parsing_indices(data, n);
        if idx.len() == 0 {
            None
        } else {
            Some(idx)
        }
    }
}

/// The indices of the faces of `data` that parse (see
/// [`parsed_face_indices_of`]); the host builds a face for each, and
/// reports the error of face 0 when there is none.
pub fn parsed_face_indices(data: &[u8]) -> (r: Option<Vec<u32>>)
    ensures
        match r {
            Some(v) => parsed_face_indices_of(data@) == Some(v@),
            None => parsed_face_indices_of(data@) is None,
        },
{
    if !is_ttc(data) {
        if face_parses(data, 0) {
            let mut v: Vec<u32> = Vec::new();
            v.push(0);
            assert(v@ =~= seq![0u32]);
            return Some(v);
        }
        return None;
    }
    let count: u32 = match ttc_face_count(data) {
        Some(c) => c,
        None => 0,
    };
    let mut out: Vec<u32> = Vec::new();
    let mut i: u32 = 0;
    while i < count
        invariant
            i <= count,
            out@ == parsing_indices(data@, i as nat),
        decreases count - i,
    {
        if face_parses(data, i) {
            out.push(i);
        }
        i = i + 1;
    }
    if out.len() == 0 {
        None
    } else {
        Some(out)
    }
}

} // verus!
