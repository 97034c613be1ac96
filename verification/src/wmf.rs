//! WMF (Windows Metafile) raster-record extraction.
//!
//! WMF records carry their size in 16-bit words and a 16-bit function
//! code; the DIB-bearing records hold the header, colour table and pixel
//! bits as one contiguous blob.
use vstd::prelude::*;

use crate::bytes::{read_u16_le, read_u32_le, u16_le, u32_le};
use crate::metafile::{bmp_file_of, build_bmp_file, compute_palette_len_pub, has_wmf_header, palette_len_of};

verus! {

/// Why WMF extraction failed.
#[derive(Debug, Clone, PartialEq, Eq, Structural)]
pub enum WmfRasterError {
    /// Input is shorter than the 18-byte `META_HEADER`.
    TooShort,
    /// `META_HEADER` fields do not match the standard WMF magic.
    NotAWmf,
    /// A record claimed a size past the buffer end.
    TruncatedRecord,
    /// No record yielded a bitmap.
    NoBitmapRecord,
    /// A raster record's DIB header or colour table ran past the record.
    MalformedDib,
}

/// `META_DIBBITBLT`.
pub const META_DIBBITBLT: u16 = 0x0940;

/// `META_DIBSTRETCHBLT`.
pub const META_DIBSTRETCHBLT: u16 = 0x0B41;

/// `META_STRETCHDIB`.
pub const META_STRETCHDIB: u16 = 0x0F43;

/// `META_EOF`.
pub const META_EOF: u16 = 0x0000;

/// Where the DIB blob starts in each DIB-bearing record.
pub open spec fn wmf_dib_offset_of(function: int) -> Option<int> {
    if function == 0x0F43 {
        Some(28)
    } else if function == 0x0B41 {
        Some(26)
    } else if function == 0x0940 {
        Some(22)
    } else {
        None
    }
}

/// The BMP built from the contiguous DIB blob that starts at `o` in a
/// record: the header is `biSize` bytes plus the colour table, the pixel
/// bits are the rest of the record.
pub open spec fn contiguous_dib_of(record: Seq<u8>, o: int) -> Option<Seq<u8>> {
    if o > record.len() {
        None
    } else {
        let blob = record.subrange(o, record.len() as int);
        if blob.len() < 4 || u32_le(blob, 0) < 12 || u32_le(blob, 0) > blob.len() {
            None
        } else {
            let dib_size = u32_le(blob, 0);
            match palette_len_of(blob.subrange(0, dib_size)) {
                None => None,
                Some(p) => if dib_size + p > blob.len() {
                    None
                } else {
                    bmp_file_of(
                        blob.subrange(0, dib_size + p),
                        blob.subrange(dib_size + p, blob.len() as int),
                    )
                },
            }
        }
    }
}

/// Builds a BMP from the contiguous DIB blob at `dib_offset` in a record.
pub fn try_extract_contiguous_dib(record: &[u8], dib_offset: usize) -> (r: Option<Vec<u8>>)
    ensures
        match r {
            Some(v) => contiguous_dib_of(record@, dib_offset as int) == Some(v@),
            None => contiguous_dib_of(record@, dib_offset as int) is None,
        },
{
    if dib_offset > record.len() {
        return None;
    }
    let blob = &record[dib_offset..record.len()];
    if blob.len() < 4 {
        return None;
    }
    let dib_size = match read_u32_le(blob, 0) {
        Some(v) => v as usize,
        None => return None,
    };
    if dib_size < 12 || dib_size > blob.len() {
        return None;
    }
    let palette_len = match compute_palette_len_pub(&blob[0..dib_size]) {
        Some(p) => p,
        None => return None,
    };
    let header_total = match dib_size.checked_add(palette_len) {
        Some(t) => t,
        None => return None,
    };
    if header_total > blob.len() {
        return None;
    }
    let dib_header = &blob[0..header_total];
    let dib_bits = &blob[header_total..blob.len()];
    build_bmp_file(dib_header, dib_bits)
}

/// The contiguous DIB at `o` runs past the record's end: its `biSize`
/// header, or the header with its colour table, does not fit in the
/// bytes after `o`.
pub open spec fn contiguous_dib_outside(record: Seq<u8>, o: int) -> bool {
    0 <= o <= record.len() && ({
        let blob = record.subrange(o, record.len() as int);
        let dib_size = u32_le(blob, 0);
        blob.len() >= 4 && (dib_size > blob.len() || (dib_size >= 12 && match palette_len_of(
            blob.subrange(0, dib_size),
        ) {
            Some(p) => dib_size + p > blob.len(),
            None => false,
        }))
    })
}

/// Whether the contiguous DIB at `dib_offset` runs past the record's end.
pub fn contiguous_dib_out_of_record(record: &[u8], dib_offset: usize) -> (r: bool)
    ensures
        r == contiguous_dib_outside(record@, dib_offset as int),
{
    if dib_offset > record.len() {
        return false;
    }
    let blob = &record[dib_offset..record.len()];
    assert(blob@ == record@.subrange(dib_offset as int, record@.len() as int));
    if blob.len() < 4 {
        return false;
    }
    let dib_size = match read_u32_le(blob, 0) {
        Some(v) => v as usize,
        None => return false,
    };
    if dib_size > blob.len() {
        return true;
    }
    if dib_size < 12 {
        return false;
    }
    match compute_palette_len_pub(&blob[0..dib_size]) {
        Some(p) => {
            p > blob.len() - dib_size
        },
        None => false,
    }
}

/// Walks the WMF records of `bytes` from `cursor`.
pub open spec fn wmf_walk(bytes: Seq<u8>, cursor: int) -> Result<Seq<u8>, WmfRasterError>
    decreases bytes.len() - cursor,
{
    if cursor < 0 || cursor + 6 > bytes.len() {
        Err(WmfRasterError::NoBitmapRecord)
    } else {
        let record_size = 2 * u32_le(bytes, cursor);
        if record_size > usize::MAX || record_size < 6 || cursor + record_size > bytes.len() {
            Err(WmfRasterError::TruncatedRecord)
        } else {
            let function = u16_le(bytes, cursor + 4);
            if function == 0 {
                Err(WmfRasterError::NoBitmapRecord)
            } else {
                let record = bytes.subrange(cursor, cursor + record_size);
                let found = match wmf_dib_offset_of(function) {
                    Some(o) => contiguous_dib_of(record, o),
                    None => None,
                };
                let malformed = match wmf_dib_offset_of(function) {
                    Some(o) => contiguous_dib_outside(record, o),
                    None => false,
                };
                if malformed {
                    Err(WmfRasterError::MalformedDib)
                } else if found is Some {
                    Ok(found.unwrap())
                } else {
                    wmf_walk(bytes, cursor + record_size)
                }
            }
        }
    }
}

/// What extraction yields for the WMF body `bytes`.
pub open spec fn wmf_raster_of(bytes: Seq<u8>) -> Result<Seq<u8>, WmfRasterError> {
    if bytes.len() < 18 {
        Err(WmfRasterError::TooShort)
    } else if !has_wmf_header(bytes) {
        Err(WmfRasterError::NotAWmf)
    } else {
        wmf_walk(bytes, 18)
    }
}

/// Walks `bytes` (a WMF body after any placeable header) and returns a
/// self-contained BMP for the first DIB-bearing record
/// (`META_STRETCHDIB`, `META_DIBSTRETCHBLT`, `META_DIBBITBLT`). Such a
/// record whose DIB header or colour table runs past its end is
/// `MalformedDib`.
pub fn extract_raster_from_wmf(bytes: &[u8]) -> (r: Result<Vec<u8>, WmfRasterError>)
    ensures
        match r {
            Ok(v) => wmf_raster_of(bytes@) == Ok::<Seq<u8>, WmfRasterError>(v@),
            Err(e) => wmf_raster_of(bytes@) == Err::<Seq<u8>, WmfRasterError>(e),
        },
{
    if bytes.len() < 18 {
        return Err(WmfRasterError::TooShort);
    }
    let type_u16 = match read_u16_le(bytes, 0) {
        Some(v) => v,
        None => 0,
    };
    let header_size_words = match read_u16_le(bytes, 2) {
        Some(v) => v,
        None => 0,
    };
    let version = match read_u16_le(bytes, 4) {
        Some(v) => v,
        None => 0,
    };
    if (type_u16 != 1 && type_u16 != 2) || header_size_words != 9 || version != 0x0300 {
        return Err(WmfRasterError::NotAWmf);
    }
    let mut cursor: usize = (header_size_words as usize) * 2;
    let ghost goal = wmf_walk(bytes@, 18);
    assert(goal == wmf_raster_of(bytes@));
    while cursor <= bytes.len() && bytes.len() - cursor >= 6
        invariant
            cursor <= bytes.len() + 18,
            goal == wmf_raster_of(bytes@),
            wmf_walk(bytes@, cursor as int) == goal,
        ensures
            goal == Err::<Seq<u8>, WmfRasterError>(WmfRasterError::NoBitmapRecord),
        decreases bytes.len() + 18 - cursor,
    {
        let record_words = match read_u32_le(bytes, cursor) {
            Some(v) => v,
            None => return Err(WmfRasterError::TruncatedRecord),
        };
        assert(record_words as int == u32_le(bytes@, cursor as int));
        let record_size = match (record_words as usize).checked_mul(2) {
            Some(v) => v,
            None => return Err(WmfRasterError::TruncatedRecord),
        };
        if record_size < 6 || record_size > bytes.len() - cursor {
            return Err(WmfRasterError::TruncatedRecord);
        }
        let function = match read_u16_le(bytes, cursor + 4) {
            Some(v) => v,
            None => return Err(WmfRasterError::TruncatedRecord),
        };
        assert(function as int == u16_le(bytes@, cursor + 4));
        if function == META_EOF {
            break ;
        }
        let record = &bytes[cursor..cursor + record_size];
        assert(record@ == bytes@.subrange(cursor as int, cursor + record_size));
        let dib_offset: Option<usize> = if function == META_STRETCHDIB {
            Some(28)
        } else if function == META_DIBSTRETCHBLT {
            Some(26)
        } else if function == META_DIBBITBLT {
            Some(22)
        } else {
            None
        };
        match dib_offset {
            Some(off) => {
                if contiguous_dib_out_of_record(record, off) {
                    return Err(WmfRasterError::MalformedDib);
                }
                match try_extract_contiguous_dib(record, off) {
                    Some(bmp) => {
                        return Ok(bmp);
                    },
                    None => {},
                }
            },
            None => {},
        }
        cursor = cursor + record_size;
    }
    Err(WmfRasterError::NoBitmapRecord)
}

/// A WMF whose first record after the 18-byte header is a DIB-bearing
/// record (`META_STRETCHDIB`, its DIB at record offset 28;
/// `META_DIBSTRETCHBLT`, at 26; `META_DIBBITBLT`, at 22) holding a
/// well-formed DIB yields the BMP of that DIB.
pub proof fn law_first_dib_record_yields_its_bitmap(bytes: Seq<u8>, function: int, o: int)
    requires
        bytes.len() <= usize::MAX,
        has_wmf_header(bytes),
        6 <= 2 * u32_le(bytes, 18),
        18 + 2 * u32_le(bytes, 18) <= bytes.len(),
        u16_le(bytes, 22) == function,
        (function == 0x0F43 && o == 28) || (function == 0x0B41 && o == 26) || (function == 0x0940
            && o == 22),
        contiguous_dib_of(bytes.subrange(18, 18 + 2 * u32_le(bytes, 18)), o) is Some,
    ensures
        wmf_raster_of(bytes) == Ok::<Seq<u8>, WmfRasterError>(
            contiguous_dib_of(bytes.subrange(18, 18 + 2 * u32_le(bytes, 18)), o).unwrap(),
        ),
{
    let record = bytes.subrange(18, 18 + 2 * u32_le(bytes, 18));
    assert(!contiguous_dib_outside(record, o));
    assert(wmf_raster_of(bytes) == wmf_walk(bytes, 18));
}

/// The same record with a DIB whose header or colour table reaches past
/// the record's end makes the file `MalformedDib`.
pub proof fn law_first_dib_record_outside_is_malformed(bytes: Seq<u8>, function: int, o: int)
    requires
        bytes.len() <= usize::MAX,
        has_wmf_header(bytes),
        6 <= 2 * u32_le(bytes, 18),
        18 + 2 * u32_le(bytes, 18) <= bytes.len(),
        u16_le(bytes, 22) == function,
        (function == 0x0F43 && o == 28) || (function == 0x0B41 && o == 26) || (function == 0x0940
            && o == 22),
        contiguous_dib_outside(bytes.subrange(18, 18 + 2 * u32_le(bytes, 18)), o),
    ensures
        wmf_raster_of(bytes) == Err::<Seq<u8>, WmfRasterError>(WmfRasterError::MalformedDib),
{
    assert(wmf_raster_of(bytes) == wmf_walk(bytes, 18));
}

/// Fewer than 18 bytes are `TooShort`; a header without the standard
/// type, header size and version is `NotAWmf`; a valid header followed
/// at once by `META_EOF` holds no bitmap.
pub proof fn law_wmf_header_errors(bytes: Seq<u8>)
    ensures
        bytes.len() < 18 ==> wmf_raster_of(bytes) == Err::<Seq<u8>, WmfRasterError>(
            WmfRasterError::TooShort,
        ),
        bytes.len() >= 18 && !has_wmf_header(bytes) ==> wmf_raster_of(bytes) == Err::<
            Seq<u8>,
            WmfRasterError,
        >(WmfRasterError::NotAWmf),
        has_wmf_header(bytes) && bytes.len() >= 24 && 6 <= 2 * u32_le(bytes, 18) && 18 + 2
            * u32_le(bytes, 18) <= bytes.len() && bytes.len() <= usize::MAX && u16_le(bytes, 22)
            == 0 ==> wmf_raster_of(bytes) == Err::<Seq<u8>, WmfRasterError>(
            WmfRasterError::NoBitmapRecord,
        ),
{
    if has_wmf_header(bytes) {
        assert(wmf_raster_of(bytes) == wmf_walk(bytes, 18));
    }
}

} // verus!
