//! Metafile sniffing and BMP file assembly shared by the EMF and WMF
//! raster extractors.
use vstd::prelude::*;

use crate::bytes::{
    le32_bytes, pow2, pow2_usize, push_slice, push_u32_le, push_zeros, read_u16_le, read_u32_le,
    u16_le, u32_le, zeros,
};

verus! {

/// Detected metafile flavour.
#[derive(Debug, Clone, Copy, PartialEq, Eq, Structural)]
pub enum MetafileKind {
    /// Enhanced Metafile: first record `EMR_HEADER`, ` EMF` at offset 40.
    Emf,
    /// Aldus Placeable Metafile: 22-byte header with magic `D7 CD C6 9A`.
    WmfPlaceable,
    /// Standard Windows Metafile: `META_HEADER` with type 1 or 2, header
    /// size 9 words and version `0x0300`.
    WmfStandard,
}

/// Bytes 40..44 of `b` spell ` EMF`, and the first record type is 1.
pub open spec fn has_emf_signature(b: Seq<u8>) -> bool {
    &&& b.len() >= 44
    &&& u32_le(b, 0) == 1
    &&& b[40] == 0x20u8
    &&& b[41] == 0x45u8
    &&& b[42] == 0x4Du8
    &&& b[43] == 0x46u8
}

/// The placeable-WMF magic opens a buffer of at least 22 bytes.
pub open spec fn has_placeable_magic(b: Seq<u8>) -> bool {
    &&& b.len() >= 22
    &&& b[0] == 0xD7u8
    &&& b[1] == 0xCDu8
    &&& b[2] == 0xC6u8
    &&& b[3] == 0x9Au8
}

/// A standard `META_HEADER` opens a buffer of at least 18 bytes.
pub open spec fn has_wmf_header(b: Seq<u8>) -> bool {
    &&& b.len() >= 18
    &&& (u16_le(b, 0) == 1 || u16_le(b, 0) == 2)
    &&& u16_le(b, 2) == 9
    &&& u16_le(b, 4) == 0x0300
}

/// The metafile flavour of `b`, checked in the order placeable WMF, EMF,
/// standard WMF.
pub open spec fn metafile_kind_of(b: Seq<u8>) -> Option<MetafileKind> {
    if has_placeable_magic(b) {
        Some(MetafileKind::WmfPlaceable)
    } else if has_emf_signature(b) {
        Some(MetafileKind::Emf)
    } else if has_wmf_header(b) {
        Some(MetafileKind::WmfStandard)
    } else {
        None
    }
}

/// Sniffs the leading bytes of `bytes` for a metafile signature.
pub fn detect_metafile_kind(bytes: &[u8]) -> (r: Option<MetafileKind>)
    ensures
        r == metafile_kind_of(bytes@),
{
    if bytes.len() >= 22 && bytes[0] == 0xD7 && bytes[1] == 0xCD && bytes[2] == 0xC6 && bytes[3]
        == 0x9A {
        return Some(MetafileKind::WmfPlaceable);
    }
    if bytes.len() >= 44 && read_u32_le(bytes, 0) == Some(1u32) && bytes[40] == 0x20
        && bytes[41] == 0x45 && bytes[42] == 0x4D && bytes[43] == 0x46 {
        return Some(MetafileKind::Emf);
    }
    if bytes.len() >= 18 {
        let type_u16 = match read_u16_le(bytes, 0) {
            Some(v) => v,
            None => 0,
        };
        let header_size = match read_u16_le(bytes, 2) {
            Some(v) => v,
            None => 0,
        };
        let version = match read_u16_le(bytes, 4) {
            Some(v) => v,
            None => 0,
        };
        if (type_u16 == 1 || type_u16 == 2) && header_size == 9 && version == 0x0300 {
            return Some(MetafileKind::WmfStandard);
        }
    }
    None
}

/// `b` begins with the eight-byte PNG signature.
pub open spec fn starts_with_png(b: Seq<u8>) -> bool {
    &&& b.len() >= 8
    &&& b[0] == 0x89u8
    &&& b[1] == 0x50u8
    &&& b[2] == 0x4Eu8
    &&& b[3] == 0x47u8
    &&& b[4] == 0x0Du8
    &&& b[5] == 0x0Au8
    &&& b[6] == 0x1Au8
    &&& b[7] == 0x0Au8
}

/// Whether `b` begins with the PNG signature.
pub fn is_png_bytes(b: &[u8]) -> (r: bool)
    ensures
        r == starts_with_png(b@),
{
    b.len() >= 8 && b[0] == 0x89 && b[1] == 0x50 && b[2] == 0x4E && b[3] == 0x47 && b[4] == 0x0D
        && b[5] == 0x0A && b[6] == 0x1A && b[7] == 0x0A
}

/// Length in bytes of the colour table that follows a DIB header, or
/// `None` when the header is too short to say (or the size does not fit
/// a `usize`).
///
/// A 12-byte `BITMAPCOREHEADER` has `2^bpp` three-byte entries for
/// `bpp <= 8`; the `BITMAPINFOHEADER` family has four-byte entries,
/// `biClrUsed` of them (or `2^bpp` when that is 0) for `1 <= bpp <= 8`.
pub open spec fn palette_len_of(h: Seq<u8>) -> Option<int> {
    if h.len() < 4 {
        None
    } else if u32_le(h, 0) == 12 {
        if h.len() < 12 {
            None
        } else if u16_le(h, 10) <= 8 {
            Some(3 * (pow2(u16_le(h, 10) as nat) as int))
        } else {
            Some(0)
        }
    } else if h.len() < 16 {
        None
    } else if u16_le(h, 14) == 0 || u16_le(h, 14) > 8 {
        Some(0)
    } else if h.len() < 36 {
        None
    } else {
        let count = if u32_le(h, 32) == 0 {
            pow2(u16_le(h, 14) as nat) as int
        } else {
            u32_le(h, 32)
        };
        if 4 * count > usize::MAX {
            None
        } else {
            Some(4 * count)
        }
    }
}

/// Colour-table length of the DIB header `dib_header` (see
/// [`palette_len_of`]).
pub fn compute_palette_len(dib_header: &[u8]) -> (r: Option<usize>)
    ensures
        r matches Some(n) ==> palette_len_of(dib_header@) == Some(n as int),
        r is None ==> palette_len_of(dib_header@) is None,
{
    let dib_size = match read_u32_le(dib_header, 0) {
        Some(v) => v,
        None => return None,
    };
    if dib_size == 12 {
        let bpp = match read_u16_le(dib_header, 10) {
            Some(v) => v,
            None => return None,
        };
        if bpp <= 8 {
            let p = pow2_usize(bpp);
            proof {
                lemma_pow2_le_256(bpp as nat);
            }
            return Some(3 * p);
        }
        return Some(0);
    }
    let bpp = match read_u16_le(dib_header, 14) {
        Some(v) => v,
        None => return None,
    };
    if bpp == 0 || bpp > 8 {
        return Some(0);
    }
    let used = match read_u32_le(dib_header, 32) {
        Some(v) => v,
        None => return None,
    };
    let count: usize = if used == 0 {
        pow2_usize(bpp)
    } else {
        used as usize
    };
    count.checked_mul(4)
}

/// Same as [`compute_palette_len`]; the name the WMF extractor uses.
pub fn compute_palette_len_pub(dib_header: &[u8]) -> (r: Option<usize>)
    ensures
        r matches Some(n) ==> palette_len_of(dib_header@) == Some(n as int),
        r is None ==> palette_len_of(dib_header@) is None,
{
    compute_palette_len(dib_header)
}

proof fn lemma_pow2_le_256(n: nat)
    requires
        n <= 8,
    ensures
        pow2(n) <= 256,
    decreases n,
{
    reveal_with_fuel(pow2, 9);
}

/// The BMP file made of a 14-byte `BITMAPFILEHEADER`, the DIB header
/// bytes `h` and the pixel bytes `bits`; `None` when `h` is not a usable
/// DIB header or the file size does not fit 32 bits.
///
/// The header's pixel offset counts the colour table computed from `h`
/// ([`palette_len_of`]), while the bytes written are exactly `h` then
/// `bits`.
pub open spec fn bmp_file_of(h: Seq<u8>, bits: Seq<u8>) -> Option<Seq<u8>> {
    if h.len() < 4 || u32_le(h, 0) < 12 || u32_le(h, 0) > h.len() {
        None
    } else {
        match palette_len_of(h) {
            None => None,
            Some(p) => {
                let bits_offset = 14 + u32_le(h, 0) + p;
                let file_size = bits_offset + bits.len();
                if file_size > u32::MAX {
                    None
                } else {
                    Some(
                        seq![0x42u8, 0x4Du8] + le32_bytes(file_size) + zeros(4) + le32_bytes(
                            bits_offset,
                        ) + h + bits,
                    )
                }
            },
        }
    }
}

/// Builds a complete BMP file from a DIB header (plus any colour table)
/// and the pixel bytes.
pub fn build_bmp_file(dib_header: &[u8], dib_bits: &[u8]) -> (r: Option<Vec<u8>>)
    ensures
        r matches Some(v) ==> bmp_file_of(dib_header@, dib_bits@) == Some(v@),
        r is None ==> bmp_file_of(dib_header@, dib_bits@) is None,
{
    if dib_header.len() < 4 {
        return None;
    }
    let dib_size = match read_u32_le(dib_header, 0) {
        Some(v) => v as usize,
        None => return None,
    };
    if dib_size < 12 || dib_size > dib_header.len() {
        return None;
    }
    let palette_len = match compute_palette_len(dib_header) {
        Some(p) => p,
        None => return None,
    };
    let total_dib = match dib_size.checked_add(palette_len) {
        Some(t) => t,
        None => return None,
    };
    let bits_offset = match total_dib.checked_add(14) {
        Some(t) => t,
        None => return None,
    };
    let file_size = match bits_offset.checked_add(dib_bits.len()) {
        Some(t) => t,
        None => return None,
    };
    if file_size > 0xFFFF_FFFF {
        return None;
    }
    let mut out: Vec<u8> = Vec::new();
    out.push(0x42u8);
    out.push(0x4Du8);
    push_u32_le(&mut out, file_size as u32);
    push_zeros(&mut out, 4);
    push_u32_le(&mut out, bits_offset as u32);
    push_slice(&mut out, dib_header);
    push_slice(&mut out, dib_bits);
    assert(out@ =~= seq![0x42u8, 0x4Du8] + le32_bytes(file_size as int) + zeros(4) + le32_bytes(
        bits_offset as int,
    ) + dib_header@ + dib_bits@);
    Some(out)
}

} // verus!
