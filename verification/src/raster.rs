//! Top-level metafile raster extraction: sniff the flavour, extract the
//! embedded bitmap, and hand back PNG bytes.
use vstd::prelude::*;

use crate::emf::{emf_raster_of, extract_raster_from_emf};
use crate::metafile::{detect_metafile_kind, is_png_bytes, metafile_kind_of, starts_with_png, MetafileKind};
use crate::wmf::{extract_raster_from_wmf, wmf_raster_of};

verus! {

/// What decoding `bmp` as a BMP image and re-encoding it as PNG yields.
pub uninterp spec fn png_from_bmp(bmp: Seq<u8>) -> Option<Seq<u8>>;

/// Decodes `bmp` with `image::load_from_memory_with_format` (BMP) and
/// re-encodes it as PNG with `image::DynamicImage::write_to`. The
/// contract claims only that the outcome is the value `png_from_bmp`
/// gives for these bytes.
#[verifier::external_body]
fn bmp_to_png(bmp: &[u8]) -> (r: Option<Vec<u8>>)
    ensures
        match r {
            Some(v) => png_from_bmp(bmp@) == Some(v@),
            None => png_from_bmp(bmp@) is None,
        },
{
    let img = image::load_from_memory_with_format(bmp, image::ImageFormat::Bmp).ok()?;
    let mut out: Vec<u8> = Vec::new();
    img.write_to(&mut std::io::Cursor::new(&mut out), image::ImageFormat::Png).ok()?;
    Some(out)
}

/// The raster (BMP, or PNG taken from an EMF+ object) embedded in the
/// metafile `bytes`, dispatched on its flavour; a placeable WMF is read
/// after its 22-byte header.
pub open spec fn raster_bmp_of(bytes: Seq<u8>) -> Option<Seq<u8>> {
    match metafile_kind_of(bytes) {
        None => None,
        Some(MetafileKind::Emf) => match emf_raster_of(bytes) {
            Ok(v) => Some(v),
            Err(_) => None,
        },
        Some(MetafileKind::WmfPlaceable) => match wmf_raster_of(
            bytes.subrange(22, bytes.len() as int),
        ) {
            Ok(v) => Some(v),
            Err(_) => None,
        },
        Some(MetafileKind::WmfStandard) => match wmf_raster_of(bytes) {
            Ok(v) => Some(v),
            Err(_) => None,
        },
    }
}

/// Detects the metafile flavour and returns the extracted raster bytes
/// without the final PNG re-encode.
pub fn extract_raster_as_bmp(bytes: &[u8]) -> (r: Option<Vec<u8>>)
    ensures
        match r {
            Some(v) => raster_bmp_of(bytes@) == Some(v@),
            None => raster_bmp_of(bytes@) is None,
        },
{
    match detect_metafile_kind(bytes) {
        None => None,
        Some(MetafileKind::Emf) => match extract_raster_from_emf(bytes) {
            Ok(v) => Some(v),
            Err(_) => None,
        },
        Some(MetafileKind::WmfPlaceable) => {
            let body = &bytes[22..bytes.len()];
            match extract_raster_from_wmf(body) {
                Ok(v) => Some(v),
                Err(_) => None,
            }
        },
        Some(MetafileKind::WmfStandard) => match extract_raster_from_wmf(bytes) {
            Ok(v) => Some(v),
            Err(_) => None,
        },
    }
}

/// PNG bytes for the raster embedded in the metafile `bytes`: rasters
/// that already are PNG pass through, BMP output is re-encoded as PNG.
pub open spec fn raster_png_of(bytes: Seq<u8>) -> Option<Seq<u8>> {
    match raster_bmp_of(bytes) {
        None => None,
        Some(b) => if starts_with_png(b) {
            Some(b)
        } else {
            png_from_bmp(b)
        },
    }
}

/// Detects the metafile flavour, extracts the embedded bitmap and
/// returns it as PNG bytes; `None` when the input is not a recognised
/// metafile, holds no bitmap, or the PNG re-encode fails.
pub fn extract_raster(bytes: &[u8]) -> (r: Option<Vec<u8>>)
    ensures
        match r {
            Some(v) => raster_png_of(bytes@) == Some(v@),
            None => raster_png_of(bytes@) is None,
        },
{
    let bmp = match extract_raster_as_bmp(bytes) {
        Some(b) => b,
        None => return None,
    };
    if is_png_bytes(&bmp) {
        return Some(bmp);
    }
    bmp_to_png(&bmp)
}

} // verus!
