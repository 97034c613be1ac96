use slideglance::ttc::parsed_face_indices;
use slideglance::opentype::{kern_adjustment_from, kern_pair_adjustment, total_advance};
use slideglance::opentype::{
    all_face_family_names, face_all_family_names, face_family_name, family_labels_from_records,
    family_name_from_records, NameRecord,
};

/// (platform, encoding, language, name id, text)
type Rec<'a> = (u16, u16, u16, u16, &'a str);

fn push16(out: &mut Vec<u8>, v: u16) {
    out.extend_from_slice(&v.to_be_bytes());
}

fn push32(out: &mut Vec<u8>, v: u32) {
    out.extend_from_slice(&v.to_be_bytes());
}

fn name_table(records: &[Rec]) -> Vec<u8> {
    let mut storage: Vec<u8> = Vec::new();
    let mut table: Vec<u8> = Vec::new();
    push16(&mut table, 0);
    push16(&mut table, records.len() as u16);
    push16(&mut table, (6 + 12 * records.len()) as u16);
    for &(platform, encoding, language, name_id, text) in records {
        let bytes: Vec<u8> = text.encode_utf16().flat_map(|u| u.to_be_bytes()).collect();
        push16(&mut table, platform);
        push16(&mut table, encoding);
        push16(&mut table, language);
        push16(&mut table, name_id);
        push16(&mut table, bytes.len() as u16);
        push16(&mut table, storage.len() as u16);
        storage.extend_from_slice(&bytes);
    }
    table.extend_from_slice(&storage);
    table
}

/// A minimal face (head, hhea, maxp, name) whose table offsets count
/// from `base`, the face's position in the file.
fn face_bytes(records: &[Rec], base: u32) -> Vec<u8> {
    let mut head = vec![0u8; 54];
    head[18..20].copy_from_slice(&1000u16.to_be_bytes());
    let hhea = vec![0u8; 36];
    let mut maxp: Vec<u8> = Vec::new();
    push32(&mut maxp, 0x0000_5000);
    push16(&mut maxp, 1);
    let name = name_table(records);
    let tables: Vec<(&[u8; 4], Vec<u8>)> =
        vec![(b"head", head), (b"hhea", hhea), (b"maxp", maxp), (b"name", name)];
    let mut out: Vec<u8> = Vec::new();
    push32(&mut out, 0x0001_0000);
    push16(&mut out, tables.len() as u16);
    push16(&mut out, 0);
    push16(&mut out, 0);
    push16(&mut out, 0);
    let mut offset = 12 + 16 * tables.len() as u32;
    let mut data: Vec<u8> = Vec::new();
    for (tag, body) in &tables {
        out.extend_from_slice(*tag);
        push32(&mut out, 0);
        push32(&mut out, base + offset);
        push32(&mut out, body.len() as u32);
        data.extend_from_slice(body);
        while data.len() % 4 != 0 {
            data.push(0);
        }
        offset = 12 + 16 * tables.len() as u32 + data.len() as u32;
    }
    out.extend_from_slice(&data);
    out
}

fn collection(faces: &[&[Rec]]) -> Vec<u8> {
    let header_len = 12 + 4 * faces.len() as u32;
    let mut bodies: Vec<Vec<u8>> = Vec::new();
    let mut offsets: Vec<u32> = Vec::new();
    let mut at = header_len;
    for records in faces {
        let body = face_bytes(records, at);
        offsets.push(at);
        at += body.len() as u32;
        bodies.push(body);
    }
    let mut out: Vec<u8> = b"ttcf".to_vec();
    push32(&mut out, 0x0001_0000);
    push32(&mut out, faces.len() as u32);
    for o in offsets {
        push32(&mut out, o);
    }
    for b in bodies {
        out.extend_from_slice(&b);
    }
    out
}

fn record(name_id: u16, platform_id: u16, language_id: u16, text: Option<&str>) -> Option<NameRecord> {
    Some(NameRecord { name_id, platform_id, language_id, text: text.map(|t| t.to_string()) })
}

#[test]
fn empty_bytes_fail_to_parse() {
    assert_eq!(face_family_name(&[], 0), None);
    assert!(face_all_family_names(&[], 0).is_empty());
}

#[test]
fn invalid_bytes_fail_to_parse() {
    assert_eq!(face_family_name(b"not a font", 0), None);
    assert!(all_face_family_names(b"not a font").is_empty());
}

#[test]
fn typographic_family_beats_plain_family() {
    let data = face_bytes(&[(3, 1, 0x0409, 1, "Family One"), (3, 1, 0x0409, 16, "Typo Family")], 0);
    assert_eq!(face_family_name(&data, 0).as_deref(), Some("Typo Family"));
}

#[test]
fn windows_english_beats_other_languages() {
    let data = face_bytes(&[(0, 3, 0, 1, "Unicode Name"), (3, 1, 0x0412, 1, "한국어"), (3, 1, 0x0409, 1, "Win Name")], 0);
    assert_eq!(face_family_name(&data, 0).as_deref(), Some("Win Name"));
}

#[test]
fn face_without_family_record_has_no_family_name() {
    let data = face_bytes(&[(3, 1, 0x0409, 2, "Regular"), (3, 1, 0x0409, 4, "Full")], 0);
    assert_eq!(face_family_name(&data, 0), None);
    assert_eq!(face_family_name(&data, 1), None);
}

#[test]
fn first_record_wins_a_tie() {
    let records = vec![
        None,
        record(1, 3, 0x0409, Some("First")),
        record(16, 1, 0, None),
        record(1, 3, 0x0409, Some("Second")),
    ];
    assert_eq!(family_name_from_records(&records).as_deref(), Some("First"));
}

#[test]
fn macintosh_english_scores_between_windows_and_others() {
    let records = vec![record(16, 0, 0, Some("Other")), record(16, 1, 0, Some("Mac")), record(1, 3, 0x0409, Some("Win1"))];
    assert_eq!(family_name_from_records(&records).as_deref(), Some("Mac"));
    assert_eq!(family_name_from_records(&Vec::new()), None);
}

#[test]
fn family_labels_are_trimmed_distinct_and_in_order() {
    let data = face_bytes(
        &[
            (3, 1, 0x0409, 1, "  Foo  "),
            (3, 1, 0x0412, 1, "프리젠테이션 7 Bold"),
            (3, 1, 0x0409, 2, "Bold"),
            (3, 1, 0x0409, 4, "Foo"),
            (3, 1, 0x0409, 6, "Foo-Bold"),
            (3, 1, 0x0409, 1, "   "),
            (3, 1, 0x0409, 21, "Foo WWS"),
        ],
        0,
    );
    assert_eq!(face_all_family_names(&data, 0), vec!["Foo", "프리젠테이션 7 Bold", "Foo-Bold", "Foo WWS"]);
}

#[test]
fn family_labels_from_plain_records() {
    let records = vec![record(16, 3, 0x0409, Some("\tA ")), record(1, 3, 0x0409, None), record(4, 0, 0, Some("A"))];
    assert_eq!(family_labels_from_records(&records), vec!["A"]);
}

#[test]
fn collection_labels_merge_across_faces() {
    let first: &[Rec] = &[(3, 1, 0x0409, 1, "A"), (3, 1, 0x0409, 4, "B")];
    let second: &[Rec] = &[(3, 1, 0x0409, 1, "B"), (3, 1, 0x0409, 16, "C")];
    let data = collection(&[first, second]);
    assert_eq!(face_family_name(&data, 1).as_deref(), Some("C"));
    assert_eq!(all_face_family_names(&data), vec!["A", "B", "C"]);
}

#[test]
fn plain_file_walks_its_single_face() {
    let data = face_bytes(&[(3, 1, 0x0409, 1, "Solo")], 0);
    assert_eq!(all_face_family_names(&data), vec!["Solo"]);
}

#[test]
fn parsed_faces_of_plain_files_and_collections() {
    let data = face_bytes(&[(3, 1, 0x0409, 1, "Solo")], 0);
    assert_eq!(parsed_face_indices(&data), Some(vec![0]));
    let first: &[Rec] = &[(3, 1, 0x0409, 1, "A")];
    let second: &[Rec] = &[(3, 1, 0x0409, 1, "B")];
    let data = collection(&[first, second]);
    assert_eq!(parsed_face_indices(&data), Some(vec![0, 1]));
    let mut broken = collection(&[first, second]);
    // the first face's offset now points past the data
    broken[12..16].copy_from_slice(&0xFFFF_0000u32.to_be_bytes());
    assert_eq!(parsed_face_indices(&broken), Some(vec![1]));
}

#[test]
fn kerning_goes_to_the_first_plain_horizontal_subtable_with_the_pair() {
    let subs = vec![
        (true, false, false, None),
        (false, false, false, Some(-5)),
        (true, true, false, Some(-7)),
        (true, false, true, Some(-9)),
        (true, false, false, Some(-40)),
        (true, false, false, Some(-50)),
    ];
    assert_eq!(kern_adjustment_from(&subs), -40);
    assert_eq!(kern_adjustment_from(&Vec::new()), 0);
    // a face without a kern table, and bytes that do not parse
    let data = face_bytes(&[(3, 1, 0x0409, 1, "Solo")], 0);
    assert_eq!(kern_pair_adjustment(&data, 0, 1, 2), 0);
    assert_eq!(kern_pair_adjustment(b"junk", 0, 1, 2), 0);
}

#[test]
fn total_advance_skips_missing_glyphs_and_saturates() {
    assert_eq!(total_advance(&vec![]), 0);
    assert_eq!(total_advance(&vec![Some(1185), None, Some(500)]), 1685);
    let many: Vec<Option<u16>> = vec![Some(u16::MAX); 70_000];
    assert_eq!(total_advance(&many), u32::MAX);
}
