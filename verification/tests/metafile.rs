use slideglance::bytes::read_u32_le;
use slideglance::emf::{extract_raster_from_emf, EmfRasterError};
use slideglance::metafile::{build_bmp_file, detect_metafile_kind, MetafileKind};
use slideglance::wmf::{extract_raster_from_wmf, WmfRasterError, META_EOF, META_STRETCHDIB};

fn synthetic_stretchdibits_emf() -> Vec<u8> {
    // -- EMR_HEADER (88 bytes) -------------------------------------
    let mut emf = Vec::new();
    // Type = 0x00000001
    emf.extend_from_slice(&1u32.to_le_bytes());
    // Size = 88 (placeholder - we'll overwrite below)
    emf.extend_from_slice(&88u32.to_le_bytes());
    // Bounds RECTL (16 bytes) + Frame (16) = 32 bytes
    emf.extend_from_slice(&[0u8; 32]);
    // Signature " EMF"
    emf.extend_from_slice(b" EMF");
    // Version = 0x00010000
    emf.extend_from_slice(&0x0001_0000u32.to_le_bytes());
    // Bytes (file size, computed later — placeholder)
    emf.extend_from_slice(&0u32.to_le_bytes());
    // Records (count, set later)
    emf.extend_from_slice(&2u32.to_le_bytes());
    // Handles
    emf.extend_from_slice(&0u16.to_le_bytes());
    // Reserved
    emf.extend_from_slice(&0u16.to_le_bytes());
    // nDescription
    emf.extend_from_slice(&0u32.to_le_bytes());
    // offDescription
    emf.extend_from_slice(&0u32.to_le_bytes());
    // nPalEntries
    emf.extend_from_slice(&0u32.to_le_bytes());
    // SizeL.cx, SizeL.cy
    emf.extend_from_slice(&100i32.to_le_bytes());
    emf.extend_from_slice(&100i32.to_le_bytes());
    // SizeMillimeters.cx,.cy
    emf.extend_from_slice(&26i32.to_le_bytes());
    emf.extend_from_slice(&26i32.to_le_bytes());
    assert_eq!(emf.len(), 88);

    // -- EMR_STRETCHDIBITS (80 hdr + 40 BITMAPINFOHEADER + 4 bits = 124) -
    let dib_off = emf.len();
    let record_size = 80 + 40 + 4;
    emf.extend_from_slice(&0x0000_0051u32.to_le_bytes()); // Type
    emf.extend_from_slice(&(record_size as u32).to_le_bytes()); // Size
    emf.extend_from_slice(&[0u8; 16]); // Bounds
    emf.extend_from_slice(&[0u8; 24]); // xDest, yDest, xSrc, ySrc, cxSrc, cySrc
                                       // offBmiSrc = 80, cbBmiSrc = 40, offBitsSrc = 120, cbBitsSrc = 4
    emf.extend_from_slice(&80u32.to_le_bytes());
    emf.extend_from_slice(&40u32.to_le_bytes());
    emf.extend_from_slice(&120u32.to_le_bytes());
    emf.extend_from_slice(&4u32.to_le_bytes());
    // UsageSrc, BitBltRasterOperation, cxDest, cyDest
    emf.extend_from_slice(&[0u8; 16]);
    // BITMAPINFOHEADER (40 bytes): 1×1, 24bpp.
    emf.extend_from_slice(&40u32.to_le_bytes()); // biSize
    emf.extend_from_slice(&1i32.to_le_bytes()); // biWidth
    emf.extend_from_slice(&1i32.to_le_bytes()); // biHeight
    emf.extend_from_slice(&1u16.to_le_bytes()); // biPlanes
    emf.extend_from_slice(&24u16.to_le_bytes()); // biBitCount
    emf.extend_from_slice(&[0u8; 24]); // biCompression.. biClrImportant
                                       // 1 RGB pixel padded to 4-byte row.
    emf.extend_from_slice(&[0xFF, 0x00, 0x00, 0x00]);
    assert_eq!(emf.len() - dib_off, record_size);

    // -- EMR_EOF (20 bytes minimum) --------------------------------
    emf.extend_from_slice(&0x0000_000Eu32.to_le_bytes()); // Type
    emf.extend_from_slice(&20u32.to_le_bytes()); // Size
    emf.extend_from_slice(&[0u8; 12]);

    emf
}

fn synthetic_stretchdib_wmf() -> Vec<u8> {
    let mut wmf = Vec::new();
    // -- META_HEADER (18 bytes) ------------------------------------
    wmf.extend_from_slice(&1u16.to_le_bytes()); // Type = memory metafile
    wmf.extend_from_slice(&9u16.to_le_bytes()); // HeaderSize = 9 WORDs
    wmf.extend_from_slice(&0x0300u16.to_le_bytes()); // Version
    wmf.extend_from_slice(&[0u8; 4]); // Size in WORDs
    wmf.extend_from_slice(&0u16.to_le_bytes()); // NumberOfObjects
    wmf.extend_from_slice(&[0u8; 4]); // MaxRecord
    wmf.extend_from_slice(&0u16.to_le_bytes()); // NumberOfMembers
    assert_eq!(wmf.len(), 18);

    // -- META_STRETCHDIB record ------------------------------------
    // Header (28 bytes) + BITMAPINFOHEADER (40) + 4 bits = 72 bytes
    // RecordSize in WORDs = 36.
    let record_words = 36u32;
    let record_size = record_words as usize * 2;
    let start = wmf.len();
    wmf.extend_from_slice(&record_words.to_le_bytes()); // Size (4 bytes, in WORDs)
    wmf.extend_from_slice(&META_STRETCHDIB.to_le_bytes()); // Function
    wmf.extend_from_slice(&0u32.to_le_bytes()); // RasterOperation
    wmf.extend_from_slice(&0u16.to_le_bytes()); // ColorUsage
    wmf.extend_from_slice(&0u16.to_le_bytes()); // SrcHeight
    wmf.extend_from_slice(&0u16.to_le_bytes()); // SrcWidth
    wmf.extend_from_slice(&0u16.to_le_bytes()); // YSrc
    wmf.extend_from_slice(&0u16.to_le_bytes()); // XSrc
    wmf.extend_from_slice(&0u16.to_le_bytes()); // DestHeight
    wmf.extend_from_slice(&0u16.to_le_bytes()); // DestWidth
    wmf.extend_from_slice(&0u16.to_le_bytes()); // YDest
    wmf.extend_from_slice(&0u16.to_le_bytes()); // XDest
                                                // DIB blob: BITMAPINFOHEADER (40) + 4 pixel bytes
    wmf.extend_from_slice(&40u32.to_le_bytes()); // biSize
    wmf.extend_from_slice(&1i32.to_le_bytes()); // biWidth
    wmf.extend_from_slice(&1i32.to_le_bytes()); // biHeight
    wmf.extend_from_slice(&1u16.to_le_bytes()); // biPlanes
    wmf.extend_from_slice(&24u16.to_le_bytes()); // biBitCount
    wmf.extend_from_slice(&[0u8; 24]); // biCompression.. biClrImportant
    wmf.extend_from_slice(&[0xFF, 0x00, 0x00, 0x00]); // 1 BGR pixel
    assert_eq!(wmf.len() - start, record_size);

    // -- META_EOF (3 WORDs = 6 bytes) ------------------------------
    wmf.extend_from_slice(&3u32.to_le_bytes()); // Size
    wmf.extend_from_slice(&META_EOF.to_le_bytes()); // Function = 0
    wmf
}

#[test]
fn detect_returns_none_for_empty() {
    assert_eq!(detect_metafile_kind(&[]), None);
}

#[test]
fn detect_returns_none_for_random_bytes() {
    assert_eq!(detect_metafile_kind(b"hello world"), None);
}

#[test]
fn detect_recognises_placeable_wmf_magic() {
    let mut bytes = vec![0u8; 22];
    bytes[0] = 0xD7;
    bytes[1] = 0xCD;
    bytes[2] = 0xC6;
    bytes[3] = 0x9A;
    assert_eq!(
        detect_metafile_kind(&bytes),
        Some(MetafileKind::WmfPlaceable)
    );
}

#[test]
fn detect_recognises_emf_signature() {
    let mut bytes = vec![0u8; 44];
    bytes[0] = 0x01; // Type = EMR_HEADER
    bytes[40] = b' ';
    bytes[41] = b'E';
    bytes[42] = b'M';
    bytes[43] = b'F';
    assert_eq!(detect_metafile_kind(&bytes), Some(MetafileKind::Emf));
}

#[test]
fn detect_recognises_standard_wmf_header() {
    // Type=1, HeaderSize=9, Version=0x0300
    let mut bytes = vec![0u8; 18];
    bytes[0] = 0x01; // Type
    bytes[2] = 0x09; // HeaderSize lo
    bytes[4] = 0x00; // Version lo
    bytes[5] = 0x03; // Version hi
    assert_eq!(
        detect_metafile_kind(&bytes),
        Some(MetafileKind::WmfStandard)
    );
}

#[test]
fn build_bmp_file_assembles_header_and_bits() {
    // Minimal BITMAPINFOHEADER (40 bytes), 1×1 24bpp pixel.
    let mut dib = vec![0u8; 40];
    dib[0] = 40; // biSize = 40
    dib[4] = 1; // biWidth = 1
    dib[8] = 1; // biHeight = 1
    dib[12] = 1; // biPlanes = 1
    dib[14] = 24; // biBitCount = 24
    let bits = vec![0xFFu8, 0x00, 0x00, 0x00]; // 1 BGR pixel padded to DWORD
    let bmp = build_bmp_file(&dib, &bits).expect("BMP build");
    assert_eq!(&bmp[..2], b"BM");
    // file size = 14 + 40 + 4 = 58
    assert_eq!(read_u32_le(&bmp, 2), Some(58));
    // bits offset = 14 + 40 = 54
    assert_eq!(read_u32_le(&bmp, 10), Some(54));
    // Trailing bytes should be the bits we passed in.
    assert_eq!(&bmp[54..], &bits[..]);
}

#[test]
fn extracts_bmp_from_synthetic_stretchdibits() {
    let emf = synthetic_stretchdibits_emf();
    let bmp = extract_raster_from_emf(&emf).expect("extract OK");
    assert_eq!(&bmp[..2], b"BM");
    // BITMAPFILEHEADER (14) + BITMAPINFOHEADER (40) + 4 pixel bytes
    assert_eq!(bmp.len(), 14 + 40 + 4);
}

#[test]
fn emf_rejects_too_short_input() {
    assert_eq!(
        extract_raster_from_emf(&[0u8; 10]),
        Err(EmfRasterError::TooShort)
    );
}

#[test]
fn rejects_non_emf_input() {
    let mut bytes = vec![0u8; 50];
    bytes[40] = b'P';
    bytes[41] = b'N';
    bytes[42] = b'G';
    bytes[43] = b'!';
    // First record type is still 0 — not 1 — so this trips the
    // signature check first.
    assert_eq!(
        extract_raster_from_emf(&bytes),
        Err(EmfRasterError::NotAnEmf)
    );
}

#[test]
fn extracts_bmp_from_synthetic_stretchdib() {
    let wmf = synthetic_stretchdib_wmf();
    let bmp = extract_raster_from_wmf(&wmf).expect("extract OK");
    assert_eq!(&bmp[..2], b"BM");
    // 14 + 40 + 4 = 58
    assert_eq!(bmp.len(), 58);
}

#[test]
fn wmf_rejects_too_short_input() {
    assert_eq!(
        extract_raster_from_wmf(&[0u8; 5]),
        Err(WmfRasterError::TooShort)
    );
}

#[test]
fn rejects_non_wmf_header() {
    let bytes = vec![0u8; 50];
    assert_eq!(
        extract_raster_from_wmf(&bytes),
        Err(WmfRasterError::NotAWmf)
    );
}

#[test]
fn emf_shorter_than_its_header_is_too_short() {
    let mut bytes = vec![0u8; 60];
    bytes[0] = 1;
    bytes[40..44].copy_from_slice(b" EMF");
    assert_eq!(extract_raster_from_emf(&bytes), Err(EmfRasterError::TooShort));
    let emf = synthetic_stretchdibits_emf();
    assert_eq!(extract_raster_from_emf(&emf[..87]), Err(EmfRasterError::TooShort));
}

#[test]
fn emf_dib_outside_its_record_is_malformed() {
    let mut emf = synthetic_stretchdibits_emf();
    // cbBmiSrc of the EMR_STRETCHDIBITS record (record at 88, field at +52)
    emf[88 + 52..88 + 56].copy_from_slice(&200u32.to_le_bytes());
    assert_eq!(extract_raster_from_emf(&emf), Err(EmfRasterError::MalformedDib));
    let mut emf = synthetic_stretchdibits_emf();
    // offBitsSrc past the record's end
    emf[88 + 56..88 + 60].copy_from_slice(&124u32.to_le_bytes());
    assert_eq!(extract_raster_from_emf(&emf), Err(EmfRasterError::MalformedDib));
}

#[test]
fn wmf_dib_outside_its_record_is_malformed() {
    let mut wmf = synthetic_stretchdib_wmf();
    // biSize of the DIB blob (record at 18, blob at +28) larger than the blob
    wmf[46..50].copy_from_slice(&100u32.to_le_bytes());
    assert_eq!(extract_raster_from_wmf(&wmf), Err(WmfRasterError::MalformedDib));
}
