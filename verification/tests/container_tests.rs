use open_city_2k::errors::Sc2Error;
use open_city_2k::sc2_iff_parse::{
    chunk_input_serial, check_file, clean_city_name, compress_rle, mac_check, mac_fix,
    sc2_uncompress_input, ChunkList, FileKind,
};

fn push_chunk(file: &mut Vec<u8>, tag: &[u8; 4], data: &[u8]) {
    file.extend_from_slice(tag);
    file.extend_from_slice(&(data.len() as u32).to_be_bytes());
    file.extend_from_slice(data);
}

/// Builds a container with the given chunks, patching the declared length.
fn build_container(chunks: &[(&[u8; 4], Vec<u8>)]) -> Vec<u8> {
    let mut file = vec![];
    file.extend_from_slice(b"FORM");
    file.extend_from_slice(&[0, 0, 0, 0]);
    file.extend_from_slice(b"SCDH");
    for (tag, data) in chunks {
        push_chunk(&mut file, tag, data);
    }
    let declared = (file.len() - 8) as u32;
    file[4..8].copy_from_slice(&declared.to_be_bytes());
    file
}

#[test]
fn chunk_input_serial_splits_chunks() {
    let file = build_container(&[
        (b"CNAM", vec![4, b'T', b'E', b'S', b'T']),
        (b"MISC", vec![1, 2, 3]),
        (b"ZZZZ", vec![9, 9]),
        (b"TEXT", vec![1]),
        (b"TEXT", vec![2]),
    ]);
    let list = chunk_input_serial(&file, FileKind::CitySave).unwrap();
    assert_eq!(list.cnam(), &vec![4, b'T', b'E', b'S', b'T']);
    assert_eq!(list.misc(), &vec![1, 2, 3]);
    assert_eq!(list.text(), &vec![vec![1], vec![2]]);
    assert_eq!(list.unknown, vec![(u32::from_be_bytes(*b"ZZZZ"), vec![9, 9])]);
    assert_eq!(list.xter().len(), 0);
}

#[test]
fn repeated_chunk_overwrites_slot() {
    let file = build_container(&[
        (b"MISC", vec![1]),
        (b"MISC", vec![2, 2]),
    ]);
    let list = chunk_input_serial(&file, FileKind::CitySave).unwrap();
    assert_eq!(list.misc(), &vec![2, 2]);
}

#[test]
fn bad_form_tag_is_format_mismatch() {
    let mut file = build_container(&[(b"MISC", vec![1])]);
    file[0] = b'X';
    assert!(matches!(
        chunk_input_serial(&file, FileKind::CitySave),
        Err(Sc2Error::FormatMismatch)
    ));
}

#[test]
fn bad_file_type_is_format_mismatch() {
    let mut file = build_container(&[(b"MISC", vec![1])]);
    file[8] = b'X';
    assert!(matches!(
        chunk_input_serial(&file, FileKind::CitySave),
        Err(Sc2Error::FormatMismatch)
    ));
}

#[test]
fn wrong_declared_length_is_format_mismatch() {
    let mut file = build_container(&[(b"MISC", vec![1])]);
    file[7] = file[7].wrapping_add(1);
    assert!(matches!(
        chunk_input_serial(&file, FileKind::CitySave),
        Err(Sc2Error::FormatMismatch)
    ));
}

#[test]
fn chunk_overrunning_buffer_is_truncated_input() {
    let mut file = build_container(&[(b"MISC", vec![1, 2, 3])]);
    // the chunk claims more payload than the file holds
    let len = file.len();
    file[len - 5] = 200;
    assert!(matches!(
        chunk_input_serial(&file, FileKind::CitySave),
        Err(Sc2Error::TruncatedInput)
    ));
}

#[test]
fn tiny_file_is_truncated_input() {
    assert!(matches!(
        chunk_input_serial(&[1, 2, 3], FileKind::CitySave),
        Err(Sc2Error::TruncatedInput)
    ));
}

#[test]
fn tileset_kind_expects_miff_tags() {
    let mut file = build_container(&[(b"TILE", vec![5])]);
    file[0..4].copy_from_slice(b"MIFF");
    file[8..12].copy_from_slice(b"SC2K");
    let list = chunk_input_serial(&file, FileKind::TileSet).unwrap();
    assert_eq!(list.tile(), &vec![5]);
    assert!(matches!(
        chunk_input_serial(&file, FileKind::CitySave),
        Err(Sc2Error::FormatMismatch)
    ));
}

/// A Mac save: 0x80 bytes of resource fork (with a Pascal-string city name
/// at offset 1), then the normalized container, then trailing garbage.
fn build_mac_file(name: &[u8], garbage: usize) -> Vec<u8> {
    let inner = build_container(&[(b"MISC", vec![1, 2])]);
    let mut file = vec![0u8; 0x80];
    file[1] = name.len() as u8;
    file[2..2 + name.len()].copy_from_slice(name);
    file.extend_from_slice(&inner);
    file.extend_from_slice(&vec![0xEE; garbage]);
    file
}

#[test]
fn mac_variant_is_detected_and_normalized() {
    let file = build_mac_file(b"OLDTOWN", 7);
    assert!(mac_check(&file));

    let (fixed, name) = mac_fix(&file).unwrap();
    // the normalized view starts at 0x80 and drops the trailing garbage
    assert_eq!(&fixed[0..4], b"FORM");
    assert_eq!(fixed, build_container(&[(b"MISC", vec![1, 2])]));
    // the recovered name equals the Pascal-string bytes at offset 1
    assert_eq!(name, [&[7u8][..], b"OLDTOWN"].concat());

    let (header, data) = check_file(&file, FileKind::CitySave).unwrap();
    assert_eq!(data, fixed);
    assert_eq!(header.city_name, Some(name.clone()));

    let list = chunk_input_serial(&file, FileKind::CitySave).unwrap();
    assert_eq!(list.cnam(), &name);
    assert_eq!(list.misc(), &vec![1, 2]);
}

#[test]
fn non_mac_file_fails_mac_check() {
    let file = build_container(&[(b"MISC", vec![1])]);
    assert!(!mac_check(&file));
    let short = vec![0u8; 16];
    assert!(!mac_check(&short));
}

#[test]
fn clean_city_name_stops_at_nul_and_skips_length_byte() {
    let mut cnam = vec![0u8; 32];
    cnam[0] = 5;
    cnam[1..6].copy_from_slice(b"SPRIN");
    cnam[6] = 0;
    cnam[7] = b'X';
    assert_eq!(clean_city_name(&cnam), "SPRIN");
    assert_eq!(clean_city_name(&[]), "");
    assert_eq!(clean_city_name(&[3]), "");
}

fn sized_list() -> ChunkList {
    let mut list = ChunkList::new();
    list.cnam = vec![0; 32];
    list.altm = vec![0; 32768];
    list.misc = compress_rle(&vec![0; 4800]);
    list.xter = compress_rle(&vec![0; 16384]);
    list.xbld = compress_rle(&vec![0; 16384]);
    list
}

#[test]
fn uncompress_checks_city_sizes() {
    // decoded sizes for a city-kind input: cnam 32, misc 4800, altm 32768,
    // xter 16384, xbld 16384
    let out = sc2_uncompress_input(sized_list(), FileKind::CitySave).unwrap();
    assert_eq!(out.cnam().len(), 32);
    assert_eq!(out.misc().len(), 4800);
    assert_eq!(out.altm().len(), 32768);
    assert_eq!(out.xter().len(), 16384);
    assert_eq!(out.xbld().len(), 16384);

    let mut bad = sized_list();
    bad.cnam = vec![0; 31];
    assert!(matches!(
        sc2_uncompress_input(bad, FileKind::CitySave),
        Err(Sc2Error::FormatMismatch)
    ));

    let mut bad = sized_list();
    bad.misc = compress_rle(&vec![0; 4799]);
    assert!(matches!(
        sc2_uncompress_input(bad, FileKind::CitySave),
        Err(Sc2Error::FormatMismatch)
    ));

    let mut bad = sized_list();
    bad.xbld = compress_rle(&vec![0; 100]);
    assert!(matches!(
        sc2_uncompress_input(bad, FileKind::CitySave),
        Err(Sc2Error::FormatMismatch)
    ));
}

#[test]
fn uncompress_decodes_planes_and_side_table() {
    let mut list = sized_list();
    list.xzon = vec![0x83, 0x11];
    list.unknown = vec![(77, vec![0x82, 0x09])];
    let out = sc2_uncompress_input(list, FileKind::CitySave).unwrap();
    assert_eq!(out.xzon(), &vec![0x11, 0x11, 0x11, 0x11]);
    assert_eq!(out.unknown, vec![(77, vec![9, 9, 9])]);
}

#[test]
fn uncompress_tileset_does_not_check_city_sizes() {
    let mut list = ChunkList::new();
    list.tile = vec![1, 2, 3];
    list.xter = vec![0x81, 7];
    let out = sc2_uncompress_input(list, FileKind::TileSet).unwrap();
    assert_eq!(out.tile(), &vec![1, 2, 3]);
    assert_eq!(out.xter(), &vec![7, 7]);
}

#[test]
fn error_messages_name_the_failure() {
    assert!(Sc2Error::FormatMismatch.message().contains("length"));
    assert!(Sc2Error::TruncatedInput.message().contains("overruns"));
    assert!(Sc2Error::UnknownLookupId { id: 3 }.message().contains("lookup"));
}
