use slideglance::bytes::{read_u16, read_u32, write_u16, write_u32};
use slideglance::ttc::{
    parsed_face_indices,
    align4, calc_offset_table_fields, extract_first_ttc_face, extract_single_face,
    extract_ttc_faces, is_ttc, ttc_face_count,
};

const TTC_TAG: [u8; 4] = *b"ttcf";

struct TableRecord {
    tag: u32,
    check_sum: u32,
    offset: usize,
    length: usize,
}



/// Builds a synthetic minimal TTF whose bytes round-trip through
/// our extractor cleanly. Not a *valid* font (ttf-parser will
/// reject it) — only the byte structure (header + table records +
/// table data) is correct, so we can verify byte-level parity.
///
/// 1 table with a 4-byte body. Total size = 12 + 16 + 4 = 32.
fn synthetic_ttf(family_marker: u8) -> Vec<u8> {
    let mut out = vec![0u8; 32];
    // sfntVersion (TrueType).
    out[..4].copy_from_slice(&[0x00, 0x01, 0x00, 0x00]);
    // numTables = 1.
    out[4..6].copy_from_slice(&1u16.to_be_bytes());
    // searchRange = 16, entrySelector = 0, rangeShift = 0 (numTables=1).
    out[6..8].copy_from_slice(&16u16.to_be_bytes());
    out[8..10].copy_from_slice(&0u16.to_be_bytes());
    out[10..12].copy_from_slice(&0u16.to_be_bytes());
    // Table record: tag = b"test", checksum = 0, offset = 28, length = 4.
    out[12..16].copy_from_slice(b"test");
    out[16..20].copy_from_slice(&0u32.to_be_bytes());
    out[20..24].copy_from_slice(&28u32.to_be_bytes());
    out[24..28].copy_from_slice(&4u32.to_be_bytes());
    // Table data — 4 bytes whose first byte distinguishes faces.
    out[28..32].copy_from_slice(&[family_marker, 0, 0, 0]);
    out
}

/// Mirrors.
fn build_ttc_from_ttfs(ttfs: &[Vec<u8>]) -> Vec<u8> {
    let mut font_infos: Vec<(u32, Vec<TableRecord>)> = Vec::new();
    for buf in ttfs {
        let sf_version = read_u32(buf, 0).unwrap();
        let num_tables = read_u16(buf, 4).unwrap();
        let mut tables = Vec::new();
        for i in 0..num_tables {
            let rec_offset = 12 + (i as usize) * 16;
            tables.push(TableRecord {
                tag: read_u32(buf, rec_offset).unwrap(),
                check_sum: read_u32(buf, rec_offset + 4).unwrap(),
                offset: read_u32(buf, rec_offset + 8).unwrap() as usize,
                length: read_u32(buf, rec_offset + 12).unwrap() as usize,
            });
        }
        font_infos.push((sf_version, tables));
    }

    let ttc_header_size = 12 + ttfs.len() * 4;
    let font_header_sizes: Vec<usize> =
        font_infos.iter().map(|(_, t)| 12 + t.len() * 16).collect();

    let mut font_offsets = Vec::with_capacity(ttfs.len());
    let mut pos = ttc_header_size;
    for size in &font_header_sizes {
        font_offsets.push(pos);
        pos += size;
    }

    let data_start = pos;
    let mut new_table_offsets: Vec<Vec<usize>> = Vec::with_capacity(ttfs.len());
    let mut data_pos = data_start;
    for (_, tables) in &font_infos {
        let mut offsets = Vec::with_capacity(tables.len());
        for table in tables {
            offsets.push(data_pos);
            data_pos += align4(table.length);
        }
        new_table_offsets.push(offsets);
    }

    let total_size = data_pos;
    let mut out = vec![0u8; total_size];
    out[..4].copy_from_slice(&TTC_TAG);
    write_u16(&mut out, 4, 1); // major version
    write_u16(&mut out, 6, 0); // minor version
    write_u32(&mut out, 8, ttfs.len() as u32);
    for (i, off) in font_offsets.iter().enumerate() {
        write_u32(&mut out, 12 + i * 4, *off as u32);
    }

    for (fi, (sf_version, tables)) in font_infos.iter().enumerate() {
        let base = font_offsets[fi];
        write_u32(&mut out, base, *sf_version);
        write_u16(&mut out, base + 4, tables.len() as u16);
        let (sr, es, rs) = calc_offset_table_fields(tables.len() as u16);
        write_u16(&mut out, base + 6, sr);
        write_u16(&mut out, base + 8, es);
        write_u16(&mut out, base + 10, rs);

        for (ti, table) in tables.iter().enumerate() {
            let rec_offset = base + 12 + ti * 16;
            write_u32(&mut out, rec_offset, table.tag);
            write_u32(&mut out, rec_offset + 4, table.check_sum);
            write_u32(&mut out, rec_offset + 8, new_table_offsets[fi][ti] as u32);
            write_u32(&mut out, rec_offset + 12, table.length as u32);
        }
    }

    // Copy table data.
    let mut write_pos = data_start;
    for (fi, (_, tables)) in font_infos.iter().enumerate() {
        for table in tables {
            let src = &ttfs[fi][table.offset..table.offset + table.length];
            out[write_pos..write_pos + table.length].copy_from_slice(src);
            write_pos += align4(table.length);
        }
    }

    out
}

// -- is_ttc --------------------------------------------------------------

#[test]
fn is_ttc_recognizes_magic() {
    let mut buf = vec![0u8; 12];
    buf[..4].copy_from_slice(&TTC_TAG);
    assert!(is_ttc(&buf));
}

#[test]
fn is_ttc_rejects_ttf() {
    let ttf = synthetic_ttf(1);
    assert!(!is_ttc(&ttf));
}

#[test]
fn is_ttc_rejects_empty() {
    assert!(!is_ttc(&[]));
}

#[test]
fn is_ttc_rejects_too_short() {
    assert!(!is_ttc(&[0x74, 0x74, 0x63]));
}

// -- ttc_face_count ------------------------------------------------------

#[test]
fn ttc_face_count_reads_header() {
    let ttc = build_ttc_from_ttfs(&[synthetic_ttf(1), synthetic_ttf(2)]);
    assert_eq!(ttc_face_count(&ttc), Some(2));
}

#[test]
fn ttc_face_count_none_for_non_ttc() {
    let ttf = synthetic_ttf(1);
    assert_eq!(ttc_face_count(&ttf), None);
}

// -- extract_ttc_faces ---------------------------------------------------

#[test]
fn extracts_individual_ttf_buffers() {
    let ttc = build_ttc_from_ttfs(&[synthetic_ttf(0xAA), synthetic_ttf(0xBB)]);
    let extracted = extract_ttc_faces(&ttc);
    assert_eq!(extracted.len(), 2);
    // Roundtrip distinguishability: each extracted buffer's data
    // table preserves its source family marker byte.
    let table0_offset = read_u32(&extracted[0], 12 + 8).unwrap() as usize;
    let table1_offset = read_u32(&extracted[1], 12 + 8).unwrap() as usize;
    assert_eq!(extracted[0][table0_offset], 0xAA);
    assert_eq!(extracted[1][table1_offset], 0xBB);
}

#[test]
fn non_ttc_returns_empty() {
    assert!(extract_ttc_faces(&synthetic_ttf(1)).is_empty());
}

#[test]
fn empty_buffer_returns_empty() {
    assert!(extract_ttc_faces(&[]).is_empty());
}

#[test]
fn zero_face_ttc_returns_empty() {
    let mut buf = vec![0u8; 12];
    buf[..4].copy_from_slice(&TTC_TAG);
    write_u16(&mut buf, 4, 1); // major version
    write_u16(&mut buf, 6, 0); // minor version
    write_u32(&mut buf, 8, 0); // numFonts = 0
    assert!(extract_ttc_faces(&buf).is_empty());
}

#[test]
fn single_face_ttc_extracts_one() {
    let ttc = build_ttc_from_ttfs(&[synthetic_ttf(0xCC)]);
    let extracted = extract_ttc_faces(&ttc);
    assert_eq!(extracted.len(), 1);
}

#[test]
fn out_of_range_table_offset_skipped() {
    let mut ttc = build_ttc_from_ttfs(&[synthetic_ttf(0xAA)]);
    let font_offset = read_u32(&ttc, 12).unwrap() as usize;
    let first_table_record_offset = font_offset + 12;
    // Corrupt the first table's offset to be wildly out of range.
    write_u32(&mut ttc, first_table_record_offset + 8, 0xFFFF_FFFF);
    let extracted = extract_ttc_faces(&ttc);
    assert!(extracted.is_empty());
}

#[test]
fn corrupt_second_face_only_returns_first() {
    let mut ttc = build_ttc_from_ttfs(&[synthetic_ttf(0xAA), synthetic_ttf(0xBB)]);
    let font2_offset = read_u32(&ttc, 16).unwrap() as usize;
    let first_table_record_offset = font2_offset + 12;
    write_u32(&mut ttc, first_table_record_offset + 8, 0xFFFF_FFFF);
    let extracted = extract_ttc_faces(&ttc);
    assert_eq!(extracted.len(), 1);
}

// -- extract_first_ttc_face ---------------------------------------------

#[test]
fn extract_first_ttc_face_returns_only_first() {
    let ttc = build_ttc_from_ttfs(&[synthetic_ttf(0xAA), synthetic_ttf(0xBB)]);
    let face = extract_first_ttc_face(&ttc).expect("first face");
    let table0_offset = read_u32(&face, 12 + 8).unwrap() as usize;
    assert_eq!(face[table0_offset], 0xAA);
}

#[test]
fn extract_first_ttc_face_none_for_non_ttc() {
    let ttf = synthetic_ttf(1);
    assert!(extract_first_ttc_face(&ttf).is_none());
}

// -- parse_font_data error path -----------------------------------------

#[test]
fn align4_basic() {
    assert_eq!(align4(0), 0);
    assert_eq!(align4(1), 4);
    assert_eq!(align4(4), 4);
    assert_eq!(align4(5), 8);
    assert_eq!(align4(7), 8);
    assert_eq!(align4(8), 8);
}

#[test]
fn calc_offset_table_fields_one_table() {
    let (sr, es, rs) = calc_offset_table_fields(1);
    // 16 * 1 = 16, search_range starts at 16, no doubling possible.
    assert_eq!((sr, es, rs), (16, 0, 0));
}

#[test]
fn calc_offset_table_fields_eight_tables() {
    let (sr, es, rs) = calc_offset_table_fields(8);
    // numTables*16 = 128. Loop condition is `<=`, so search_range
    // doubles 16→32→64→128 (last iteration: 64*2=128 ≤ 128). es=3,
    // rs = 128 - 128 = 0. Matches TS exactly.
    assert_eq!((sr, es, rs), (128, 3, 0));
}

#[test]
fn calc_offset_table_fields_three_tables() {
    let (sr, es, rs) = calc_offset_table_fields(3);
    // numTables*16 = 48. 16→32 (32*2=64 > 48 → stop). es=1,
    // rs = 48 - 32 = 16.
    assert_eq!((sr, es, rs), (32, 1, 16));
}

// -- own tests --------------------------------------------------------------

/// Two tables: a 5-byte one (padded to 8) and a 3-byte one.
fn two_table_ttf() -> Vec<u8> {
    let mut out = vec![0u8; 12 + 32 + 8 + 4];
    out[..4].copy_from_slice(&[0x00, 0x01, 0x00, 0x00]);
    out[4..6].copy_from_slice(&2u16.to_be_bytes());
    out[12..16].copy_from_slice(b"aaaa");
    out[16..20].copy_from_slice(&7u32.to_be_bytes());
    out[20..24].copy_from_slice(&44u32.to_be_bytes());
    out[24..28].copy_from_slice(&5u32.to_be_bytes());
    out[28..32].copy_from_slice(b"bbbb");
    out[32..36].copy_from_slice(&9u32.to_be_bytes());
    out[36..40].copy_from_slice(&52u32.to_be_bytes());
    out[40..44].copy_from_slice(&3u32.to_be_bytes());
    out[44..49].copy_from_slice(&[1, 2, 3, 4, 5]);
    out[52..55].copy_from_slice(&[6, 7, 8]);
    out
}

#[test]
fn extracted_face_reads_back_its_tables() {
    let ttc = build_ttc_from_ttfs(&[synthetic_ttf(0x11), two_table_ttf()]);
    let faces = extract_ttc_faces(&ttc);
    assert_eq!(faces.len(), 2);
    let face = &faces[1];
    assert_eq!(read_u16(face, 4), Some(2));
    // recomputed search fields for two tables
    assert_eq!(read_u16(face, 6), Some(32));
    assert_eq!(read_u16(face, 8), Some(1));
    assert_eq!(read_u16(face, 10), Some(0));
    // tags and checksums are kept, tables are laid out after the records
    assert_eq!(&face[12..16], b"aaaa");
    assert_eq!(read_u32(face, 16), Some(7));
    assert_eq!(read_u32(face, 20), Some(44));
    assert_eq!(read_u32(face, 24), Some(5));
    assert_eq!(read_u32(face, 36), Some(52));
    assert_eq!(&face[44..49], &[1, 2, 3, 4, 5]);
    assert_eq!(&face[49..52], &[0, 0, 0]);
    assert_eq!(&face[52..55], &[6, 7, 8]);
    assert_eq!(face.len(), 56);
}

#[test]
fn single_face_with_zero_tables_is_rejected() {
    let mut data = vec![0u8; 12];
    data[..4].copy_from_slice(&[0, 1, 0, 0]);
    assert_eq!(extract_single_face(&data, 0), None);
    assert_eq!(extract_single_face(&data, 100), None);
}

#[test]
fn face_count_requires_offset_table() {
    let mut buf = vec![0u8; 12];
    buf[..4].copy_from_slice(&TTC_TAG);
    write_u32(&mut buf, 8, 1); // one face but no offset entry
    assert_eq!(ttc_face_count(&buf), None);
    buf.extend_from_slice(&[0, 0, 0, 0]);
    assert_eq!(ttc_face_count(&buf), Some(1));
}

#[test]
fn offset_table_fields_for_sixteen_tables() {
    assert_eq!(calc_offset_table_fields(16), (256, 4, 0));
    assert_eq!(calc_offset_table_fields(17), (256, 4, 16));
}

#[test]
fn parse_font_data_rejects_invalid_bytes() {
    assert_eq!(parsed_face_indices(b"not a font"), None);
}

#[test]
fn parse_font_data_rejects_ttc_with_invalid_faces() {
    let ttc = build_ttc_from_ttfs(&[synthetic_ttf(0xAA)]);
    assert_eq!(parsed_face_indices(&ttc), None);
}
