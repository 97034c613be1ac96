//! EMF (Enhanced Metafile) raster-record extraction.
//!
//! Walks the EMF record stream and builds a BMP from the first
//! bitmap-bearing record; failing that, scans the EMF+ stream carried by
//! `EMR_COMMENT` records for an embedded bitmap image.
use vstd::prelude::*;

use crate::bytes::{le32_at, read_u32_le, u32_le};
use crate::emfplus::{emfplus_bitmap_of, try_extract_emfplus_bitmap};
use crate::metafile::{bmp_file_of, build_bmp_file, has_emf_signature};

verus! {

/// Why EMF extraction failed.
#[derive(Debug, Clone, PartialEq, Eq, Structural)]
pub enum EmfRasterError {
    /// Input is shorter than the 88-byte `EMR_HEADER` minimum.
    TooShort,
    /// Leading record is not `EMR_HEADER` with the ` EMF` signature.
    NotAnEmf,
    /// No record yielded a bitmap.
    NoBitmapRecord,
    /// A raster record's DIB offsets pointed outside the record.
    MalformedDib,
    /// A record claimed more bytes than remain.
    TruncatedRecord,
}

/// `EMR_EOF`, the record that ends the stream.
pub const EMR_EOF: u32 = 0x0000_000E;

/// `EMR_COMMENT`, which carries the EMF+ stream.
pub const EMR_COMMENT: u32 = 0x0000_0046;

/// Offset of the `offBmiSrc` field inside each bitmap-bearing record type.
pub open spec fn dib_offset_of(record_type: u32) -> Option<usize> {
    if record_type == 0x51 || record_type == 0x50 {
        Some(48)
    } else if record_type == 0x4C || record_type == 0x4D || record_type == 0x74 || record_type
        == 0x4E {
        Some(84)
    } else if record_type == 0x72 {
        Some(88)
    } else if record_type == 0x4F {
        Some(116)
    } else {
        None
    }
}

/// Offset of `offBmiSrc` for the raster record types `EMR_STRETCHDIBITS`,
/// `EMR_SETDIBITSTODEVICE`, `EMR_BITBLT`, `EMR_STRETCHBLT`,
/// `EMR_TRANSPARENTBLT`, `EMR_MASKBLT`, `EMR_ALPHABLEND` and
/// `EMR_PLGBLT`; `None` for every other record type.
pub fn raster_record_dib_offset(record_type: u32) -> (r: Option<usize>)
    ensures
        r == dib_offset_of(record_type),
{
    match record_type {
        0x51 => Some(48),
        0x50 => Some(48),
        0x4C => Some(84),
        0x4D => Some(84),
        0x74 => Some(84),
        0x72 => Some(88),
        0x4E => Some(84),
        0x4F => Some(116),
        _ => None,
    }
}

/// The BMP built from the DIB a raster record points at: the four
/// `offBmiSrc / cbBmiSrc / offBitsSrc / cbBitsSrc` words at `o` give the
/// header and pixel ranges inside the record.
#[verifier::opaque]
pub open spec fn record_dib_of(record: Seq<u8>, o: int) -> Option<Seq<u8>> {
    if record.len() < o + 16 {
        None
    } else {
        let off_bmi = u32_le(record, o);
        let cb_bmi = u32_le(record, o + 4);
        let off_bits = u32_le(record, o + 8);
        let cb_bits = u32_le(record, o + 12);
        if cb_bmi == 0 || cb_bits == 0 {
            None
        } else if off_bmi + cb_bmi > record.len() || off_bits + cb_bits > record.len() {
            None
        } else {
            bmp_file_of(
                record.subrange(off_bmi, off_bmi + cb_bmi),
                record.subrange(off_bits, off_bits + cb_bits),
            )
        }
    }
}

/// The DIB header or the bits that a raster record's four words at `o`
/// point at lie (partly) past the record's end.
pub open spec fn dib_outside_record(record: Seq<u8>, o: int) -> bool {
    record.len() >= o + 16 && (u32_le(record, o) + u32_le(record, o + 4) > record.len() || u32_le(
        record,
        o + 8,
    ) + u32_le(record, o + 12) > record.len())
}

/// Whether the DIB header or bits a raster record points at lie past the
/// record's end.
pub fn dib_out_of_record(record: &[u8], dib_offset: usize) -> (r: bool)
    ensures
        r == dib_outside_record(record@, dib_offset as int),
{
    if record.len() < 16 || record.len() - 16 < dib_offset {
        return false;
    }
    let off_bmi = match read_u32_le(record, dib_offset) {
        Some(v) => v as u64,
        None => return false,
    };
    let cb_bmi = match read_u32_le(record, dib_offset + 4) {
        Some(v) => v as u64,
        None => return false,
    };
    let off_bits = match read_u32_le(record, dib_offset + 8) {
        Some(v) => v as u64,
        None => return false,
    };
    let cb_bits = match read_u32_le(record, dib_offset + 12) {
        Some(v) => v as u64,
        None => return false,
    };
    let len = record.len() as u64;
    off_bmi + cb_bmi > len || off_bits + cb_bits > len
}

/// Builds a BMP from the DIB referenced by a raster record.
pub fn try_extract_dib(record: &[u8], dib_offset: usize) -> (r: Option<Vec<u8>>)
    ensures
        r matches Some(v) ==> record_dib_of(record@, dib_offset as int) == Some(v@),
        r is None ==> record_dib_of(record@, dib_offset as int) is None,
{
    reveal(record_dib_of);
    if record.len() < 16 || record.len() - 16 < dib_offset {
        return None;
    }
    let off_bmi = match read_u32_le(record, dib_offset) {
        Some(v) => v as usize,
        None => return None,
    };
    let cb_bmi = match read_u32_le(record, dib_offset + 4) {
        Some(v) => v as usize,
        None => return None,
    };
    let off_bits = match read_u32_le(record, dib_offset + 8) {
        Some(v) => v as usize,
        None => return None,
    };
    let cb_bits = match read_u32_le(record, dib_offset + 12) {
        Some(v) => v as usize,
        None => return None,
    };
    if cb_bmi == 0 || cb_bits == 0 {
        return None;
    }
    let bmi_end = match off_bmi.checked_add(cb_bmi) {
        Some(e) => e,
        None => return None,
    };
    let bits_end = match off_bits.checked_add(cb_bits) {
        Some(e) => e,
        None => return None,
    };
    if bmi_end > record.len() || bits_end > record.len() {
        return None;
    }
    let dib_header = &record[off_bmi..bmi_end];
    let dib_bits = &record[off_bits..bits_end];
    build_bmp_file(dib_header, dib_bits)
}

/// The EMF+ bytes an `EMR_COMMENT` record contributes: the comment data
/// after the `EMF+` identifier, when the record is such a comment and
/// its `DataSize` fits the record; empty otherwise. A `DataSize` below 8
/// leaves no room after the identifier and contributes nothing.
pub open spec fn comment_payload_of(record_type: u32, record: Seq<u8>) -> Seq<u8> {
    if record_type == EMR_COMMENT && record.len() >= 16 && record[12] == 0x45u8 && record[13]
        == 0x4Du8 && record[14] == 0x46u8 && record[15] == 0x2Bu8 && u32_le(record, 8) >= 8 && 8
        + u32_le(record, 8) <= record.len() {
        record.subrange(16, 8 + u32_le(record, 8))
    } else {
        Seq::empty()
    }
}

/// Result once the record walk has ended with the EMF+ bytes `stream`.
pub open spec fn emf_finish(stream: Seq<u8>) -> Result<Seq<u8>, EmfRasterError> {
    if stream.len() > 0 && emfplus_bitmap_of(stream) is Some {
        Ok(emfplus_bitmap_of(stream).unwrap())
    } else {
        Err(EmfRasterError::NoBitmapRecord)
    }
}

/// Walks the records of `bytes` from `cursor`, with the EMF+ bytes
/// gathered so far in `stream`.
pub open spec fn emf_walk(bytes: Seq<u8>, cursor: int, stream: Seq<u8>) -> Result<
    Seq<u8>,
    EmfRasterError,
>
    decreases bytes.len() - cursor,
{
    if cursor < 0 || cursor + 8 > bytes.len() {
        emf_finish(stream)
    } else {
        let record_type = u32_le(bytes, cursor) as u32;
        let record_size = u32_le(bytes, cursor + 4);
        if record_size < 8 || cursor + record_size > bytes.len() {
            Err(EmfRasterError::TruncatedRecord)
        } else {
            let record = bytes.subrange(cursor, cursor + record_size);
            if record_type == EMR_EOF {
                emf_finish(stream)
            } else {
                let found = match dib_offset_of(record_type) {
                    Some(o) => record_dib_of(record, o as int),
                    None => None,
                };
                let malformed = match dib_offset_of(record_type) {
                    Some(o) => dib_outside_record(record, o as int),
                    None => false,
                };
                if malformed {
                    Err(EmfRasterError::MalformedDib)
                } else if found is Some {
                    Ok(found.unwrap())
                } else {
                    emf_walk(
                        bytes,
                        cursor + record_size,
                        stream + comment_payload_of(record_type, record),
                    )
                }
            }
        }
    }
}

/// What extraction yields for the EMF file `bytes`.
pub open spec fn emf_raster_of(bytes: Seq<u8>) -> Result<Seq<u8>, EmfRasterError> {
    if bytes.len() < 44 {
        Err(EmfRasterError::TooShort)
    } else if !has_emf_signature(bytes) {
        Err(EmfRasterError::NotAnEmf)
    } else if bytes.len() < 88 {
        Err(EmfRasterError::TooShort)
    } else if u32_le(bytes, 4) < 8 || u32_le(bytes, 4) > bytes.len() {
        Err(EmfRasterError::TruncatedRecord)
    } else {
        emf_walk(bytes, u32_le(bytes, 4), Seq::empty())
    }
}

/// Walks `bytes` (a complete EMF file) and returns a self-contained BMP
/// for the first bitmap-bearing record; when no GDI raster record yields
/// one, the EMF+ stream gathered from the comment records is searched
/// for a bitmap image. A raster record whose DIB header or bits lie past
/// its end is `MalformedDib`; an EMF shorter than its 88-byte header is
/// `TooShort`.
pub fn extract_raster_from_emf(bytes: &[u8]) -> (r: Result<Vec<u8>, EmfRasterError>)
    ensures
        match r {
            Ok(v) => emf_raster_of(bytes@) == Ok::<Seq<u8>, EmfRasterError>(v@),
            Err(e) => emf_raster_of(bytes@) == Err::<Seq<u8>, EmfRasterError>(e),
        },
{
    if bytes.len() < 44 {
        return Err(EmfRasterError::TooShort);
    }
    if read_u32_le(bytes, 0) != Some(1u32) || bytes[40] != 0x20 || bytes[41] != 0x45 || bytes[42]
        != 0x4D || bytes[43] != 0x46 {
        return Err(EmfRasterError::NotAnEmf);
    }
    if bytes.len() < 88 {
        return Err(EmfRasterError::TooShort);
    }
    let header_size = match read_u32_le(bytes, 4) {
        Some(v) => v as usize,
        None => return Err(EmfRasterError::TooShort),
    };
    if header_size < 8 || header_size > bytes.len() {
        return Err(EmfRasterError::TruncatedRecord);
    }
    let mut cursor: usize = header_size;
    let mut stream: Vec<u8> = Vec::new();
    let ghost goal = emf_walk(bytes@, header_size as int, Seq::empty());
    assert(goal == emf_raster_of(bytes@));
    while bytes.len() - cursor >= 8
        invariant
            cursor <= bytes.len(),
            goal == emf_walk(bytes@, header_size as int, Seq::empty()),
            goal == emf_raster_of(bytes@),
            emf_walk(bytes@, cursor as int, stream@) == goal,
        ensures
            emf_finish(stream@) == goal,
        decreases bytes.len() - cursor,
    {
        let record_type = match read_u32_le(bytes, cursor) {
            Some(v) => v,
            None => return Err(EmfRasterError::TruncatedRecord),
        };
        let record_size = match read_u32_le(bytes, cursor + 4) {
            Some(v) => v as usize,
            None => return Err(EmfRasterError::TruncatedRecord),
        };
        assert(record_type as int == u32_le(bytes@, cursor as int));
        assert(record_size as int == u32_le(bytes@, cursor + 4));
        if record_size < 8 || record_size > bytes.len() - cursor {
            return Err(EmfRasterError::TruncatedRecord);
        }
        let record = &bytes[cursor..cursor + record_size];
        assert(record@ == bytes@.subrange(cursor as int, cursor + record_size));
        if record_type == EMR_EOF {
            break ;
        }
        match raster_record_dib_offset(record_type) {
            Some(dib_offset) => {
                if dib_out_of_record(record, dib_offset) {
                    return Err(EmfRasterError::MalformedDib);
                }
                match try_extract_dib(record, dib_offset) {
                    Some(bmp) => {
                        return Ok(bmp);
                    },
                    None => {},
                }
            },
            None => {},
        }
        let ghost s0 = stream@;
        if record_type == EMR_COMMENT && record.len() >= 16 && record[12] == 0x45 && record[13]
            == 0x4D && record[14] == 0x46 && record[15] == 0x2B {
            let data_size: usize = match read_u32_le(record, 8) {
                Some(v) => v as usize,
                None => 0,
            };
            if data_size >= 8 && data_size <= record.len() - 8 {
                let payload = &record[16..8 + data_size];
                crate::bytes::push_slice(&mut stream, payload);
            }
        }
        assert(stream@ =~= s0 + comment_payload_of(record_type, record@));
        cursor = cursor + record_size;
    }
    assert(goal == emf_raster_of(bytes@));
    if stream.len() > 0 {
        match try_extract_emfplus_bitmap(&stream) {
            Some(bmp) => {
                return Ok(bmp);
            },
            None => {},
        }
    }
    Err(EmfRasterError::NoBitmapRecord)
}

/// An EMF whose first record after the header is a bitmap-bearing
/// record (`EMR_BITBLT`, `EMR_STRETCHBLT`, `EMR_MASKBLT`, `EMR_PLGBLT`,
/// `EMR_SETDIBITSTODEVICE`, `EMR_STRETCHDIBITS`, `EMR_ALPHABLEND` or
/// `EMR_TRANSPARENTBLT`) whose `offBmiSrc / cbBmiSrc / offBitsSrc /
/// cbBitsSrc` words, at that record type's offset `o`, point at a
/// well-formed DIB inside the record, yields the BMP of that DIB.
pub proof fn law_first_raster_record_yields_its_bitmap(bytes: Seq<u8>, t: u32, o: int)
    requires
        bytes.len() >= 88,
        has_emf_signature(bytes),
        8 <= u32_le(bytes, 4),
        8 <= u32_le(bytes, u32_le(bytes, 4) + 4),
        u32_le(bytes, 4) + 8 <= bytes.len(),
        u32_le(bytes, 4) + u32_le(bytes, u32_le(bytes, 4) + 4) <= bytes.len(),
        u32_le(bytes, u32_le(bytes, 4)) == t as int,
        (t == 0x4C && o == 84) || (t == 0x4D && o == 84) || (t == 0x4E && o == 84) || (t == 0x4F
            && o == 116) || (t == 0x50 && o == 48) || (t == 0x51 && o == 48) || (t == 0x72 && o
            == 88) || (t == 0x74 && o == 84),
        record_dib_of(
            bytes.subrange(u32_le(bytes, 4), u32_le(bytes, 4) + u32_le(bytes, u32_le(bytes, 4) + 4)),
            o,
        ) is Some,
    ensures
        emf_raster_of(bytes) == Ok::<Seq<u8>, EmfRasterError>(
            record_dib_of(
                bytes.subrange(
                    u32_le(bytes, 4),
                    u32_le(bytes, 4) + u32_le(bytes, u32_le(bytes, 4) + 4),
                ),
                o,
            ).unwrap(),
        ),
{
    reveal(record_dib_of);
    let h = u32_le(bytes, 4);
    let record = bytes.subrange(h, h + u32_le(bytes, h + 4));
    assert(!dib_outside_record(record, o));
    assert(emf_raster_of(bytes) == emf_walk(bytes, h, Seq::empty()));
}

/// The same record with its DIB header or bits reaching past the
/// record's end makes the file `MalformedDib`.
pub proof fn law_first_raster_record_outside_is_malformed(bytes: Seq<u8>, t: u32, o: int)
    requires
        bytes.len() >= 88,
        has_emf_signature(bytes),
        8 <= u32_le(bytes, 4),
        8 <= u32_le(bytes, u32_le(bytes, 4) + 4),
        u32_le(bytes, 4) + 8 <= bytes.len(),
        u32_le(bytes, 4) + u32_le(bytes, u32_le(bytes, 4) + 4) <= bytes.len(),
        u32_le(bytes, u32_le(bytes, 4)) == t as int,
        (t == 0x4C && o == 84) || (t == 0x4D && o == 84) || (t == 0x4E && o == 84) || (t == 0x4F
            && o == 116) || (t == 0x50 && o == 48) || (t == 0x51 && o == 48) || (t == 0x72 && o
            == 88) || (t == 0x74 && o == 84),
        dib_outside_record(
            bytes.subrange(u32_le(bytes, 4), u32_le(bytes, 4) + u32_le(bytes, u32_le(bytes, 4) + 4)),
            o,
        ),
    ensures
        emf_raster_of(bytes) == Err::<Seq<u8>, EmfRasterError>(EmfRasterError::MalformedDib),
{
    assert(emf_raster_of(bytes) == emf_walk(bytes, u32_le(bytes, 4), Seq::empty()));
}

/// A file of fewer than 44 bytes, or an EMF whose header is shorter than
/// the 88-byte `EMR_HEADER`, is `TooShort`; 44 bytes or more without the
/// `EMR_HEADER` type and ` EMF` signature are `NotAnEmf`.
pub proof fn law_emf_header_errors(bytes: Seq<u8>)
    ensures
        bytes.len() < 44 ==> emf_raster_of(bytes) == Err::<Seq<u8>, EmfRasterError>(
            EmfRasterError::TooShort,
        ),
        44 <= bytes.len() < 88 && has_emf_signature(bytes) ==> emf_raster_of(bytes) == Err::<
            Seq<u8>,
            EmfRasterError,
        >(EmfRasterError::TooShort),
        bytes.len() >= 44 && !has_emf_signature(bytes) ==> emf_raster_of(bytes) == Err::<
            Seq<u8>,
            EmfRasterError,
        >(EmfRasterError::NotAnEmf),
{
}

} // verus!
