//! EMF+ bitmap-object extraction.
//!
//! Walks an EMF+ record stream (gathered from EMF comment records),
//! reassembles `EmfPlusObject` image bodies split across continuation
//! records, and turns the first decodable bitmap into BMP or PNG bytes.
use vstd::prelude::*;

use crate::bytes::{
    le16_bytes, le32_bytes, push_slice, push_u16_le, push_u32_le, push_zeros, read_u16_le,
    read_u32_le, u16_le, u32_le, zeros,
};
use crate::metafile::{bmp_file_of, build_bmp_file, is_png_bytes, starts_with_png};

verus! {

/// What re-encoding the image bytes `bytes` (PNG, JPEG, GIF or BMP,
/// format detected from the content) as PNG yields.
pub uninterp spec fn png_reencoded(bytes: Seq<u8>) -> Option<Seq<u8>>;

/// Decodes `bytes` with `image::load_from_memory` and re-encodes the
/// picture as PNG with `image::DynamicImage::write_to`. The contract
/// claims only that the outcome is the value `png_reencoded` gives for
/// these bytes (decoding and encoding are deterministic).
#[verifier::external_body]
fn reencode_as_png(bytes: &[u8]) -> (r: Option<Vec<u8>>)
    ensures
        match r {
            Some(v) => png_reencoded(bytes@) == Some(v@),
            None => png_reencoded(bytes@) is None,
        },
{
    let img = image::load_from_memory(bytes).ok()?;
    let mut png: Vec<u8> = Vec::new();
    img.write_to(&mut std::io::Cursor::new(&mut png), image::ImageFormat::Png).ok()?;
    Some(png)
}

/// How the fourth byte of each 32-bit pixel varies.
#[derive(Debug, Clone, Copy, PartialEq, Eq, Structural)]
pub enum AlphaState {
    /// Some pixel has an X byte other than the rest: real alpha.
    Variable,
    /// Every X byte is `0xFF`.
    AllOpaque,
    /// Every X byte is `0x00`.
    AllTransparent,
    /// Nothing was scanned.
    Unscanned,
}

/// Pixel `(r, c)` lies on a row that fits entirely in `len` bytes.
pub open spec fn alpha_scanned(len: int, w: int, h: int, s: int, r: int, c: int) -> bool {
    0 <= r < h && 0 <= c < w && r * s + 4 * w <= len
}

/// The X byte of pixel `(r, c)`.
pub open spec fn alpha_at(data: Seq<u8>, s: int, r: int, c: int) -> u8 {
    data[r * s + 4 * c + 3]
}

/// Some scanned pixel has X byte `v`.
pub open spec fn alpha_seen(data: Seq<u8>, w: int, h: int, s: int, v: u8) -> bool {
    exists|r: int, c: int|
        alpha_scanned(data.len() as int, w, h, s, r, c) && #[trigger] alpha_at(data, s, r, c)
            == v
}

/// Some scanned pixel has an X byte other than `0x00` and `0xFF`.
pub open spec fn alpha_mixed(data: Seq<u8>, w: int, h: int, s: int) -> bool {
    exists|r: int, c: int|
        alpha_scanned(data.len() as int, w, h, s, r, c) && #[trigger] alpha_at(data, s, r, c)
            != 0u8 && alpha_at(data, s, r, c) != 0xFFu8
}

/// Classification of the X bytes of the rows of a `w`-by-`h` 32-bit
/// pixel buffer with row stride `s` that fit in the buffer.
pub open spec fn alpha_state_of(data: Seq<u8>, w: int, h: int, s: int) -> AlphaState {
    if w == 0 || h == 0 {
        AlphaState::Unscanned
    } else if alpha_mixed(data, w, h, s) {
        AlphaState::Variable
    } else if alpha_seen(data, w, h, s, 0u8) && alpha_seen(data, w, h, s, 0xFFu8) {
        AlphaState::Variable
    } else if alpha_seen(data, w, h, s, 0xFFu8) {
        AlphaState::AllOpaque
    } else if alpha_seen(data, w, h, s, 0u8) {
        AlphaState::AllTransparent
    } else {
        AlphaState::Unscanned
    }
}

/// Pixel `(r, c)` comes before `(row, col)` in scan order.
pub open spec fn scanned_before(w: int, r: int, c: int, row: int, col: int) -> bool {
    (0 <= r < row && 0 <= c < w) || (r == row && 0 <= c < col)
}

spec fn seen_before(data: Seq<u8>, s: int, w: int, row: int, col: int, v: u8) -> bool {
    exists|r: int, c: int| scanned_before(w, r, c, row, col) && #[trigger] alpha_at(data, s, r, c) == v
}

spec fn plain_before(data: Seq<u8>, s: int, w: int, row: int, col: int) -> bool {
    forall|r: int, c: int|
        scanned_before(w, r, c, row, col) ==> #[trigger] alpha_at(data, s, r, c) == 0u8
            || alpha_at(data, s, r, c) == 0xFFu8
}

proof fn lemma_rows_after_fail(len: int, w: int, s: int, row: int, r: int)
    requires
        0 <= row <= r,
        s >= 0,
        row * s + 4 * w > len,
    ensures
        r * s + 4 * w > len,
{
    assert(r * s >= row * s) by (nonlinear_arith)
        requires
            0 <= row <= r,
            s >= 0,
    ;
}

/// Classifies the X (alpha) bytes of a 32-bit pixel buffer: every row
/// that fits in the buffer is scanned, stopping at the first row that
/// does not.
pub fn detect_alpha_state(bitmap_data: &[u8], width: usize, height: usize, stride: usize) -> (r:
    AlphaState)
    ensures
        r == alpha_state_of(bitmap_data@, width as int, height as int, stride as int),
{
    if width == 0 || height == 0 {
        return AlphaState::Unscanned;
    }
    let ghost data = bitmap_data@;
    let n: usize = bitmap_data.len();
    let ghost len = n as int;
    let ghost w = width as int;
    let ghost h = height as int;
    let ghost s = stride as int;
    let mut saw_zero = false;
    let mut saw_full = false;
    let mut saw_other = false;
    let mut row: usize = 0;
    while row < height
        invariant_except_break
            !saw_other,
        invariant
            row <= height,
            data == bitmap_data@,
            len == data.len(),
            len <= usize::MAX,
            w == width,
            h == height,
            s == stride,
            w > 0,
            h > 0,
            forall|r: int| 0 <= r < row ==> #[trigger] (r * s) + 4 * w <= len,
            !saw_other ==> plain_before(data, s, w, row as int, 0),
            !saw_other ==> (saw_zero <==> seen_before(data, s, w, row as int, 0, 0u8)),
            !saw_other ==> (saw_full <==> seen_before(data, s, w, row as int, 0, 0xFFu8)),
            saw_other ==> alpha_mixed(data, w, h, s),
        ensures
            saw_other ==> alpha_mixed(data, w, h, s),
            !saw_other ==> plain_before(data, s, w, row as int, 0),
            !saw_other ==> (saw_zero <==> seen_before(data, s, w, row as int, 0, 0u8)),
            !saw_other ==> (saw_full <==> seen_before(data, s, w, row as int, 0, 0xFFu8)),
            !saw_other ==> forall|r: int| row <= r ==> #[trigger] (r * s) + 4 * w > len || r >= h,
            forall|r: int| 0 <= r < row ==> #[trigger] (r * s) + 4 * w <= len,
            row <= height,
        decreases height - row,
    {
        let start = match row.checked_mul(stride) {
            Some(v) => v,
            None => {
                proof {
                    assert((row as int) * s > usize::MAX);
                    assert(4 * w >= 0);
                    assert forall|r: int| row <= r implies #[trigger] (r * s) + 4 * w > len
                        || r >= h by {
                        if r < h {
                            lemma_rows_after_fail(len, w, s, row as int, r);
                        }
                    }
                }
                break ;
            },
        };
        let w4 = match width.checked_mul(4) {
            Some(v) => v,
            None => {
                proof {
                    assert(4 * w > usize::MAX);
                    assert((row as int) * s >= 0) by (nonlinear_arith)
                        requires
                            row >= 0,
                            s >= 0,
                    ;
                    assert forall|r: int| row <= r implies #[trigger] (r * s) + 4 * w > len
                        || r >= h by {
                        if r < h {
                            lemma_rows_after_fail(len, w, s, row as int, r);
                        }
                    }
                }
                break ;
            },
        };
        if start > bitmap_data.len() || w4 > bitmap_data.len() - start {
            proof {
                assert forall|r: int| row <= r implies #[trigger] (r * s) + 4 * w > len || r
                    >= h by {
                    if r < h {
                        lemma_rows_after_fail(len, w, s, row as int, r);
                    }
                }
            }
            break ;
        }
        let mut col: usize = 0;
        while col < width
            invariant_except_break
                !saw_other,
            invariant
                col <= width,
                row < height,
                start == row * stride,
                start + 4 * width <= bitmap_data@.len(),
                data == bitmap_data@,
                len == data.len(),
                len <= usize::MAX,
                w == width,
                h == height,
                s == stride,
                !saw_other ==> plain_before(data, s, w, row as int, col as int),
                !saw_other ==> (saw_zero <==> seen_before(data, s, w, row as int, col as int, 0u8)),
                !saw_other ==> (saw_full <==> seen_before(
                    data,
                    s,
                    w,
                    row as int,
                    col as int,
                    0xFFu8,
                )),
            ensures
                saw_other ==> alpha_mixed(data, w, h, s),
                !saw_other ==> col == width,
                !saw_other ==> plain_before(data, s, w, row as int, col as int),
                !saw_other ==> (saw_zero <==> seen_before(data, s, w, row as int, col as int, 0u8)),
                !saw_other ==> (saw_full <==> seen_before(
                    data,
                    s,
                    w,
                    row as int,
                    col as int,
                    0xFFu8,
                )),
            decreases width - col,
        {
            let a = bitmap_data[start + col * 4 + 3];
            assert(alpha_at(data, s, row as int, col as int) == a);
            if a == 0 {
                saw_zero = true;
            } else if a == 0xFF {
                saw_full = true;
            } else {
                saw_other = true;
                assert(alpha_scanned(len, w, h, s, row as int, col as int));
                break ;
            }
            col = col + 1;
            assert forall|v: u8|
                (seen_before(data, s, w, row as int, (col - 1) as int, v) || alpha_at(
                    data,
                    s,
                    row as int,
                    (col - 1) as int,
                ) == v) implies seen_before(data, s, w, row as int, col as int, v) by {
                if alpha_at(data, s, row as int, (col - 1) as int) == v {
                    assert(scanned_before(w, row as int, (col - 1) as int, row as int, col as int));
                } else {
                    let (r0, c0) = choose|r: int, c: int|
                        scanned_before(w, r, c, row as int, (col - 1) as int) && #[trigger] alpha_at(
                            data,
                            s,
                            r,
                            c,
                        ) == v;
                    assert(scanned_before(w, r0, c0, row as int, col as int));
                }
            }
            assert forall|v: u8|
                seen_before(data, s, w, row as int, col as int, v) implies (seen_before(
                    data,
                    s,
                    w,
                    row as int,
                    (col - 1) as int,
                    v,
                ) || alpha_at(data, s, row as int, (col - 1) as int) == v) by {
                {
                    let (r0, c0) = choose|r: int, c: int|
                        scanned_before(w, r, c, row as int, col as int) && #[trigger] alpha_at(
                            data,
                            s,
                            r,
                            c,
                        ) == v;
                    if !(r0 == row && c0 == col - 1) {
                        assert(scanned_before(w, r0, c0, row as int, (col - 1) as int));
                    }
                }
            }
        }
        if saw_other {
            break ;
        }
        proof {
            assert forall|v: u8|
                seen_before(data, s, w, row as int, w, v) == seen_before(
                    data,
                    s,
                    w,
                    (row + 1) as int,
                    0,
                    v,
                ) by {
                if seen_before(data, s, w, row as int, w, v) {
                    let (r0, c0) = choose|r: int, c: int|
                        scanned_before(w, r, c, row as int, w) && #[trigger] alpha_at(data, s, r, c)
                            == v;
                    assert(scanned_before(w, r0, c0, (row + 1) as int, 0));
                }
                if seen_before(data, s, w, (row + 1) as int, 0, v) {
                    let (r0, c0) = choose|r: int, c: int|
                        scanned_before(w, r, c, (row + 1) as int, 0) && #[trigger] alpha_at(
                            data,
                            s,
                            r,
                            c,
                        ) == v;
                    assert(scanned_before(w, r0, c0, row as int, w));
                }
            }
            assert forall|r: int, c: int|
                scanned_before(w, r, c, (row + 1) as int, 0) implies #[trigger] alpha_at(
                data,
                s,
                r,
                c,
            ) == 0u8 || alpha_at(data, s, r, c) == 0xFFu8 by {
                assert(scanned_before(w, r, c, row as int, w));
            }
            assert((row as int) * s == start);
        }
        row = row + 1;
    }
    proof {
        if !saw_other {
            assert forall|r: int, c: int|
                alpha_scanned(len, w, h, s, r, c) implies scanned_before(
                w,
                r,
                c,
                row as int,
                0,
            ) by {
                if r >= row {
                    assert((r * s) + 4 * w > len || r >= h);
                }
            }
            assert(!alpha_mixed(data, w, h, s)) by {
                if alpha_mixed(data, w, h, s) {
                    let (r0, c0) = choose|r: int, c: int|
                        alpha_scanned(len, w, h, s, r, c) && #[trigger] alpha_at(data, s, r, c)
                            != 0u8 && alpha_at(data, s, r, c) != 0xFFu8;
                    assert(scanned_before(w, r0, c0, row as int, 0));
                }
            }
            assert forall|v: u8|
                alpha_seen(data, w, h, s, v) == seen_before(data, s, w, row as int, 0, v) by {
                if alpha_seen(data, w, h, s, v) {
                    let (r0, c0) = choose|r: int, c: int|
                        alpha_scanned(len, w, h, s, r, c) && #[trigger] alpha_at(data, s, r, c)
                            == v;
                    assert(scanned_before(w, r0, c0, row as int, 0));
                }
                if seen_before(data, s, w, row as int, 0, v) {
                    let (r0, c0) = choose|r: int, c: int|
                        scanned_before(w, r, c, row as int, 0) && #[trigger] alpha_at(data, s, r, c)
                            == v;
                    assert(r0 < row);
                    assert((r0 * s) + 4 * w <= len);
                    assert(alpha_scanned(len, w, h, s, r0, c0));
                }
            }
        }
    }
    if saw_other || (saw_zero && saw_full) {
        AlphaState::Variable
    } else if saw_full {
        AlphaState::AllOpaque
    } else if saw_zero {
        AlphaState::AllTransparent
    } else {
        AlphaState::Unscanned
    }
}


/// The three colour bytes of the first `cols` pixels of row `r`.
pub open spec fn row_pixels24(data: Seq<u8>, sa: int, r: int, cols: nat) -> Seq<u8>
    decreases cols,
{
    if cols == 0 {
        Seq::empty()
    } else {
        let base = r * sa + 4 * (cols - 1);
        row_pixels24(data, sa, r, (cols - 1) as nat) + seq![data[base], data[base + 1], data[base + 2]]
    }
}

/// Row stride of packed 24-bit pixels, padded to four bytes.
pub open spec fn padded_stride24(wa: int) -> int {
    ((3 * wa + 3) / 4) * 4
}

/// The first `rows` rows of the 32-bit buffer repacked as padded 24-bit
/// rows.
pub open spec fn repacked_rows(data: Seq<u8>, wa: nat, sa: int, rows: nat) -> Seq<u8>
    decreases rows,
{
    if rows == 0 {
        Seq::empty()
    } else {
        repacked_rows(data, wa, sa, (rows - 1) as nat) + row_pixels24(data, sa, rows - 1, wa)
            + zeros((padded_stride24(wa as int) - 3 * wa) as nat)
    }
}

/// The 32-bit pixel buffer (`wa` by `ha`, stride `sa`) repacked as
/// 24-bit rows with the X byte dropped; `None` when a row runs past the
/// buffer or the result would not fit a `usize`.
pub open spec fn repack24_of(data: Seq<u8>, wa: int, ha: int, sa: int) -> Option<Seq<u8>> {
    if padded_stride24(wa) * ha > usize::MAX || (ha - 1) * sa + 4 * wa > data.len() {
        None
    } else {
        Some(repacked_rows(data, wa as nat, sa, ha as nat))
    }
}

/// Repacks a 32-bit BGRX buffer into padded 24-bit BGR rows.
pub fn repack_to_24bpp(data: &[u8], wa: usize, ha: usize, sa: usize) -> (r: Option<Vec<u8>>)
    requires
        wa >= 1,
        ha >= 1,
    ensures
        match r {
            Some(v) => repack24_of(data@, wa as int, ha as int, sa as int) == Some(v@),
            None => repack24_of(data@, wa as int, ha as int, sa as int) is None,
        },
{
    let dlen: usize = data.len();
    let w3 = match wa.checked_mul(3) {
        Some(v) => v,
        None => {
            proof {
                assert(padded_stride24(wa as int) * ha >= padded_stride24(wa as int)) by (
                nonlinear_arith)
                    requires
                        ha >= 1,
                        padded_stride24(wa as int) >= 0,
                ;
            }
            return None;
        },
    };
    let w3p = match w3.checked_add(3) {
        Some(v) => v,
        None => {
            proof {
                assert(padded_stride24(wa as int) * ha >= padded_stride24(wa as int)) by (
                nonlinear_arith)
                    requires
                        ha >= 1,
                        padded_stride24(wa as int) >= 0,
                ;
            }
            return None;
        },
    };
    let ns = (w3p / 4) * 4;
    assert(ns == padded_stride24(wa as int));
    let total = match ns.checked_mul(ha) {
        Some(v) => v,
        None => return None,
    };
    let last = match (ha - 1).checked_mul(sa) {
        Some(v) => v,
        None => {
            proof {
                assert(dlen == data@.len());
                assert((ha - 1) * sa + 4 * wa > data@.len());
            }
            return None;
        },
    };
    let w4 = match wa.checked_mul(4) {
        Some(v) => v,
        None => {
            proof {
                assert(dlen == data@.len());
                assert((ha - 1) * sa >= 0) by (nonlinear_arith)
                    requires
                        ha >= 1,
                        sa >= 0,
                ;
            }
            return None;
        },
    };
    if last > data.len() || w4 > data.len() - last {
        return None;
    }
    let pad = ns - w3;
    let mut out: Vec<u8> = Vec::new();
    let mut row: usize = 0;
    while row < ha
        invariant
            row <= ha,
            wa >= 1,
            ha >= 1,
            ns == padded_stride24(wa as int),
            w3 == 3 * wa,
            pad == ns - w3,
            last == (ha - 1) * sa,
            last + 4 * wa <= data@.len(),
            data@.len() == dlen,
            out@ == repacked_rows(data@, wa as nat, sa as int, row as nat),
        decreases ha - row,
    {
        assert((row as int) * sa <= (ha - 1) * sa) by (nonlinear_arith)
            requires
                row < ha,
                sa >= 0,
        ;
        let base = row * sa;
        let mut col: usize = 0;
        while col < wa
            invariant
                col <= wa,
                row < ha,
                base == row * sa,
                base + 4 * wa <= data@.len(),
                data@.len() == dlen,
                out@ == repacked_rows(data@, wa as nat, sa as int, row as nat) + row_pixels24(
                    data@,
                    sa as int,
                    row as int,
                    col as nat,
                ),
            decreases wa - col,
        {
            let i = base + 4 * col;
            out.push(data[i]);
            out.push(data[i + 1]);
            out.push(data[i + 2]);
            col = col + 1;
            assert(out@ =~= repacked_rows(data@, wa as nat, sa as int, row as nat) + row_pixels24(
                data@,
                sa as int,
                row as int,
                col as nat,
            ));
        }
        push_zeros(&mut out, pad);
        row = row + 1;
        assert(out@ =~= repacked_rows(data@, wa as nat, sa as int, row as nat));
    }
    Some(out)
}

/// The `BITMAPINFOHEADER` (40 bytes) or, for `BI_BITFIELDS`
/// (`comp == 3`), `BITMAPV4HEADER` (108 bytes, BGRA masks and sRGB
/// colour space) describing an EMF+ pixel bitmap.
pub open spec fn dib_header_of(w: int, bmp_h: int, bpp: int, comp: int, bits_len: int) -> Seq<u8> {
    let hs: int = if comp == 3 {
        108
    } else {
        40
    };
    le32_bytes(hs) + le32_bytes(w) + le32_bytes(bmp_h) + le16_bytes(1) + le16_bytes(bpp)
        + le32_bytes(comp) + le32_bytes(bits_len) + zeros(16) + if comp == 3 {
        le32_bytes(0x00FF_0000) + le32_bytes(0x0000_FF00) + le32_bytes(0x0000_00FF) + le32_bytes(
            0xFF00_0000,
        ) + le32_bytes(0x7352_4742) + zeros(48)
    } else {
        Seq::empty()
    }
}

/// `biHeight` as raw 32 bits: the image height negated (two's
/// complement, wrapping) when the signed stride is positive, which marks
/// a top-down bitmap.
pub open spec fn bmp_height_of(h: int, s: int) -> int {
    if 0 < s < 0x8000_0000 {
        if h == 0 {
            0
        } else {
            0x1_0000_0000 - h
        }
    } else {
        h
    }
}

/// The BMP file for EMF+ pixels `bits` with the given header fields.
pub open spec fn assembled_bmp_of(w: int, h: int, s: int, bpp: int, comp: int, bits: Seq<u8>) -> Option<
    Seq<u8>,
> {
    if bits.len() > u32::MAX {
        None
    } else {
        bmp_file_of(dib_header_of(w, bmp_height_of(h, s), bpp, comp, bits.len() as int), bits)
    }
}

fn dib_header_bytes(width: u32, bmp_height: u32, bpp: u16, compression: u32, bits_len: u32) -> (r:
    Vec<u8>)
    requires
        compression == 0 || compression == 3,
    ensures
        r@ == dib_header_of(
            width as int,
            bmp_height as int,
            bpp as int,
            compression as int,
            bits_len as int,
        ),
{
    let header_size: u32 = if compression == 3 {
        108
    } else {
        40
    };
    let mut dib: Vec<u8> = Vec::new();
    push_u32_le(&mut dib, header_size);
    push_u32_le(&mut dib, width);
    push_u32_le(&mut dib, bmp_height);
    push_u16_le(&mut dib, 1);
    push_u16_le(&mut dib, bpp);
    push_u32_le(&mut dib, compression);
    push_u32_le(&mut dib, bits_len);
    push_zeros(&mut dib, 16);
    let ghost base = dib@;
    if compression == 3 {
        let mut masks: Vec<u8> = Vec::new();
        push_u32_le(&mut masks, 0x00FF_0000);
        push_u32_le(&mut masks, 0x0000_FF00);
        push_u32_le(&mut masks, 0x0000_00FF);
        push_u32_le(&mut masks, 0xFF00_0000);
        push_u32_le(&mut masks, 0x7352_4742);
        push_zeros(&mut masks, 48);
        push_slice(&mut dib, &masks);
    } else {
        assert(dib@ =~= base + Seq::<u8>::empty());
    }
    dib
}

#[verifier::rlimit(30)]
fn assemble_bmp(width: u32, height: u32, stride: u32, bpp: u16, compression: u32, bits: &[u8]) -> (r:
    Option<Vec<u8>>)
    requires
        compression == 0 || compression == 3,
    ensures
        match r {
            Some(v) => assembled_bmp_of(
                width as int,
                height as int,
                stride as int,
                bpp as int,
                compression as int,
                bits@,
            ) == Some(v@),
            None => assembled_bmp_of(
                width as int,
                height as int,
                stride as int,
                bpp as int,
                compression as int,
                bits@,
            ) is None,
        },
{
    if bits.len() > 0xFFFF_FFFF {
        return None;
    }
    let bmp_height: u32 = if stride > 0 && stride < 0x8000_0000 {
        if height == 0 {
            0
        } else {
            0xFFFF_FFFF - height + 1
        }
    } else {
        height
    };
    assert(bmp_height == bmp_height_of(height as int, stride as int));
    let dib = dib_header_bytes(width, bmp_height, bpp, compression, bits.len() as u32);
    build_bmp_file(&dib, bits)
}

/// Magnitude of a 32-bit two's-complement value given as raw bits.
pub open spec fn abs_i32_bits(v: int) -> int {
    if v < 0x8000_0000 {
        v
    } else {
        0x1_0000_0000 - v
    }
}

fn unsigned_abs_bits(v: u32) -> (r: usize)
    ensures
        r == abs_i32_bits(v as int),
{
    if v < 0x8000_0000 {
        v as usize
    } else {
        let m: u32 = 0xFFFF_FFFF - v + 1;
        m as usize
    }
}

/// The BMP for an EMF+ pixel bitmap (`width`, `height`, `stride` as raw
/// 32-bit two's-complement values, `pixel_format` as stored) over the
/// pixel bytes `data`.
///
/// Only 24- and 32-bit formats are accepted. 32-bit data whose X bytes
/// vary keeps its alpha as a `BI_BITFIELDS` bitmap; otherwise it is
/// repacked to opaque 24-bit rows.
pub open spec fn pixel_bitmap_of(w: int, h: int, s: int, pf: int, data: Seq<u8>) -> Option<Seq<u8>> {
    let wa = abs_i32_bits(w);
    let ha = abs_i32_bits(h);
    let sa = abs_i32_bits(s);
    let bpp = (pf / 256) % 256;
    if wa == 0 || ha == 0 || sa == 0 {
        None
    } else if bpp != 24 && bpp != 32 {
        None
    } else if sa * ha > usize::MAX || data.len() < sa * ha {
        None
    } else {
        let state = if bpp == 32 {
            alpha_state_of(data, wa, ha, sa)
        } else {
            AlphaState::Unscanned
        };
        if state == AlphaState::Variable {
            assembled_bmp_of(w, h, s, 32, 3, data.subrange(0, sa * ha))
        } else if bpp == 32 {
            match repack24_of(data, wa, ha, sa) {
                Some(p) => assembled_bmp_of(w, h, s, 24, 0, p),
                None => None,
            }
        } else {
            assembled_bmp_of(w, h, s, bpp, 0, data.subrange(0, sa * ha))
        }
    }
}

fn decode_pixel_bitmap(width: u32, height: u32, stride: u32, pixel_format: u32, data: &[u8]) -> (r:
    Option<Vec<u8>>)
    ensures
        match r {
            Some(v) => pixel_bitmap_of(
                width as int,
                height as int,
                stride as int,
                pixel_format as int,
                data@,
            ) == Some(v@),
            None => pixel_bitmap_of(
                width as int,
                height as int,
                stride as int,
                pixel_format as int,
                data@,
            ) is None,
        },
{
    let stride_abs = unsigned_abs_bits(stride);
    let height_abs = unsigned_abs_bits(height);
    let width_abs = unsigned_abs_bits(width);
    if width_abs == 0 || height_abs == 0 || stride_abs == 0 {
        return None;
    }
    let bpp: u32 = (pixel_format / 256) % 256;
    if bpp != 24 && bpp != 32 {
        return None;
    }
    let expected = match stride_abs.checked_mul(height_abs) {
        Some(v) => v,
        None => return None,
    };
    if data.len() < expected {
        return None;
    }
    let state = if bpp == 32 {
        detect_alpha_state(data, width_abs, height_abs, stride_abs)
    } else {
        AlphaState::Unscanned
    };
    match state {
        AlphaState::Variable => assemble_bmp(width, height, stride, 32, 3, &data[0..expected]),
        _ => {
            if bpp == 32 {
                match repack_to_24bpp(data, width_abs, height_abs, stride_abs) {
                    Some(p) => assemble_bmp(width, height, stride, 24, 0, &p),
                    None => None,
                }
            } else {
                assemble_bmp(width, height, stride, bpp as u16, 0, &data[0..expected])
            }
        },
    }
}

/// What an `EmfPlusImage` object body decodes to: compressed bitmap
/// data passes through when it is already PNG and is otherwise
/// re-encoded as PNG; raw pixel data becomes a BMP
/// ([`pixel_bitmap_of`]). Anything else yields `None`.
#[verifier::opaque]
pub open spec fn emfplus_image_of(body: Seq<u8>) -> Option<Seq<u8>> {
    if body.len() < 28 || u32_le(body, 4) != 1 {
        None
    } else {
        let data = body.subrange(28, body.len() as int);
        let bitmap_type = u32_le(body, 24);
        if bitmap_type == 1 {
            if starts_with_png(data) {
                Some(data)
            } else {
                png_reencoded(data)
            }
        } else if bitmap_type == 0 {
            pixel_bitmap_of(u32_le(body, 8), u32_le(body, 12), u32_le(body, 16), u32_le(body, 20), data)
        } else {
            None
        }
    }
}

/// Decodes an `EmfPlusImage` object body into BMP or PNG bytes.
pub fn decode_emfplus_image(body: &[u8]) -> (r: Option<Vec<u8>>)
    ensures
        match r {
            Some(v) => emfplus_image_of(body@) == Some(v@),
            None => emfplus_image_of(body@) is None,
        },
{
    reveal(emfplus_image_of);
    if body.len() < 8 {
        return None;
    }
    let image_type = match read_u32_le(body, 4) {
        Some(v) => v,
        None => return None,
    };
    if image_type != 1 {
        return None;
    }
    if body.len() < 28 {
        return None;
    }
    let width = match read_u32_le(body, 8) {
        Some(v) => v,
        None => return None,
    };
    let height = match read_u32_le(body, 12) {
        Some(v) => v,
        None => return None,
    };
    let stride = match read_u32_le(body, 16) {
        Some(v) => v,
        None => return None,
    };
    let pixel_format = match read_u32_le(body, 20) {
        Some(v) => v,
        None => return None,
    };
    let bmp_type = match read_u32_le(body, 24) {
        Some(v) => v,
        None => return None,
    };
    let bitmap_data = &body[28..body.len()];
    if bmp_type == 1 {
        if is_png_bytes(bitmap_data) {
            let mut v: Vec<u8> = Vec::new();
            push_slice(&mut v, bitmap_data);
            return Some(v);
        }
        reencode_as_png(bitmap_data)
    } else if bmp_type == 0 {
        decode_pixel_bitmap(width, height, stride, pixel_format, bitmap_data)
    } else {
        None
    }
}


/// Pending image body: the object id and the bytes gathered so far.
pub open spec fn pending_of(has: bool, id: u8, buf: Seq<u8>) -> Option<(u8, Seq<u8>)> {
    if has {
        Some((id, buf))
    } else {
        None
    }
}

/// Walks the EMF+ records of `stream` from `p`, with the image body
/// accumulated from continuation records in `pending`; yields the first
/// image object that decodes.
pub open spec fn emfplus_walk(stream: Seq<u8>, p: int, pending: Option<(u8, Seq<u8>)>) -> Option<
    Seq<u8>,
>
    decreases stream.len() - p,
{
    if p < 0 || p + 12 > stream.len() {
        None
    } else {
        let record_type = u16_le(stream, p);
        let flags = u16_le(stream, p + 2);
        let size = u32_le(stream, p + 4);
        let data_size = u32_le(stream, p + 8);
        if size < 12 || p + size > stream.len() || 12 + data_size > size {
            None
        } else if record_type == 0x4002 {
            None
        } else if record_type == 0x4008 && (flags / 256) % 128 == 5 {
            let object_id = (flags % 256) as u8;
            let body = stream.subrange(p + 12, p + 12 + data_size);
            let buf = match pending {
                Some(pb) => if pb.0 == object_id {
                    pb.1 + body
                } else {
                    body
                },
                None => body,
            };
            if flags < 0x8000 {
                match emfplus_image_of(buf) {
                    Some(img) => Some(img),
                    None => emfplus_walk(stream, p + size, None),
                }
            } else {
                emfplus_walk(stream, p + size, Some((object_id, buf)))
            }
        } else {
            emfplus_walk(stream, p + size, pending)
        }
    }
}

/// The first decodable bitmap image object in the EMF+ stream.
#[verifier::opaque]
pub open spec fn emfplus_bitmap_of(stream: Seq<u8>) -> Option<Seq<u8>> {
    emfplus_walk(stream, 0, None)
}

/// Walks a (possibly cross-record-concatenated) EMF+ stream and returns
/// BMP or PNG bytes for the first `EmfPlusObject` image whose body
/// decodes. Bodies split across records with the `Continued` flag are
/// joined per object id.
#[verifier::rlimit(100)]
pub fn try_extract_emfplus_bitmap(stream: &[u8]) -> (r: Option<Vec<u8>>)
    ensures
        match r {
            Some(v) => emfplus_bitmap_of(stream@) == Some(v@),
            None => emfplus_bitmap_of(stream@) is None,
        },
{
    reveal(emfplus_bitmap_of);
    let mut p: usize = 0;
    let mut has_pending = false;
    let mut pending_id: u8 = 0;
    let mut pending_buf: Vec<u8> = Vec::new();
    let ghost goal = emfplus_walk(stream@, 0, None);
    while p <= stream.len() && stream.len() - p >= 12
        invariant
            p <= stream.len(),
            goal == emfplus_bitmap_of(stream@),
            emfplus_walk(stream@, p as int, pending_of(has_pending, pending_id, pending_buf@))
                == goal,
        decreases stream.len() - p,
    {
        let rt = match read_u16_le(stream, p) {
            Some(v) => v,
            None => return None,
        };
        let flags = match read_u16_le(stream, p + 2) {
            Some(v) => v,
            None => return None,
        };
        let size = match read_u32_le(stream, p + 4) {
            Some(v) => v as usize,
            None => return None,
        };
        let data_size = match read_u32_le(stream, p + 8) {
            Some(v) => v as usize,
            None => return None,
        };
        assert(rt as int == u16_le(stream@, p as int));
        assert(flags as int == u16_le(stream@, p + 2));
        assert(size as int == u32_le(stream@, p + 4));
        assert(data_size as int == u32_le(stream@, p + 8));
        if size < 12 || size > stream.len() - p || data_size > size - 12 {
            assert(emfplus_walk(stream@, p as int, pending_of(has_pending, pending_id, pending_buf@))
                is None);
            return None;
        }
        if rt == 0x4002 {
            assert(emfplus_walk(stream@, p as int, pending_of(has_pending, pending_id, pending_buf@))
                is None);
            return None;
        }
        if rt == 0x4008 && (flags / 256) % 128 == 5 {
            let object_id = (flags % 256) as u8;
            let body = &stream[p + 12..p + 12 + data_size];
            if !(has_pending && pending_id == object_id) {
                pending_buf = Vec::new();
            }
            push_slice(&mut pending_buf, body);
            has_pending = true;
            pending_id = object_id;
            if flags < 0x8000 {
                match decode_emfplus_image(&pending_buf) {
                    Some(image) => {
                        return Some(image);
                    },
                    None => {},
                }
                has_pending = false;
                pending_buf = Vec::new();
            }
        }
        p = p + size;
    }
    None
}

} // verus!
