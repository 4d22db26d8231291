use open_city_2k::buildings::{BuildingEntry, BuildingRegistry};
use open_city_2k::city::City;
use open_city_2k::errors::Sc2Error;
use open_city_2k::sc2_iff_parse::compress_rle;

fn push_chunk(file: &mut Vec<u8>, tag: &[u8; 4], data: &[u8]) {
    file.extend_from_slice(tag);
    file.extend_from_slice(&(data.len() as u32).to_be_bytes());
    file.extend_from_slice(data);
}

struct Planes {
    cnam: Vec<u8>,
    altm: Vec<u8>,
    misc: Vec<u8>,
    xter: Vec<u8>,
    xbld: Vec<u8>,
    xzon: Vec<u8>,
    xund: Vec<u8>,
    xtxt: Vec<u8>,
    xbit: Vec<u8>,
    xtrf: Vec<u8>,
    xplt: Vec<u8>,
    xval: Vec<u8>,
    xcrm: Vec<u8>,
    xplc: Vec<u8>,
    xfir: Vec<u8>,
    xpop: Vec<u8>,
    xrog: Vec<u8>,
    xlab: Vec<u8>,
    xmic: Vec<u8>,
    xthg: Vec<u8>,
    xgrp: Vec<u8>,
    text: Vec<Vec<u8>>,
    scen: Vec<u8>,
    pict: Vec<u8>,
}

fn zero_planes() -> Planes {
    Planes {
        cnam: vec![0; 32],
        altm: vec![0; 32768],
        misc: vec![0; 4800],
        xter: vec![0; 16384],
        xbld: vec![0; 16384],
        xzon: vec![0; 16384],
        xund: vec![0; 16384],
        xtxt: vec![0; 16384],
        xbit: vec![0; 16384],
        xtrf: vec![0; 4096],
        xplt: vec![0; 4096],
        xval: vec![0; 4096],
        xcrm: vec![0; 4096],
        xplc: vec![0; 1024],
        xfir: vec![0; 1024],
        xpop: vec![0; 1024],
        xrog: vec![0; 1024],
        xlab: vec![0; 1600],
        xmic: vec![0; 64],
        xthg: vec![0; 24],
        xgrp: vec![0; 3328],
        text: vec![],
        scen: vec![],
        pict: vec![],
    }
}

/// Assembles a full city save file from its decoded planes, compressing the
/// regions the format stores run-length encoded.
fn build_city_file(p: &Planes) -> Vec<u8> {
    let mut file = vec![];
    file.extend_from_slice(b"FORM");
    file.extend_from_slice(&[0, 0, 0, 0]);
    file.extend_from_slice(b"SCDH");
    push_chunk(&mut file, b"CNAM", &p.cnam);
    push_chunk(&mut file, b"ALTM", &p.altm);
    push_chunk(&mut file, b"MISC", &compress_rle(&p.misc));
    push_chunk(&mut file, b"XTER", &compress_rle(&p.xter));
    push_chunk(&mut file, b"XBLD", &compress_rle(&p.xbld));
    push_chunk(&mut file, b"XZON", &compress_rle(&p.xzon));
    push_chunk(&mut file, b"XUND", &compress_rle(&p.xund));
    push_chunk(&mut file, b"XTXT", &compress_rle(&p.xtxt));
    push_chunk(&mut file, b"XBIT", &compress_rle(&p.xbit));
    push_chunk(&mut file, b"XTRF", &compress_rle(&p.xtrf));
    push_chunk(&mut file, b"XPLT", &compress_rle(&p.xplt));
    push_chunk(&mut file, b"XVAL", &compress_rle(&p.xval));
    push_chunk(&mut file, b"XCRM", &compress_rle(&p.xcrm));
    push_chunk(&mut file, b"XPLC", &compress_rle(&p.xplc));
    push_chunk(&mut file, b"XFIR", &compress_rle(&p.xfir));
    push_chunk(&mut file, b"XPOP", &compress_rle(&p.xpop));
    push_chunk(&mut file, b"XROG", &compress_rle(&p.xrog));
    push_chunk(&mut file, b"XLAB", &compress_rle(&p.xlab));
    push_chunk(&mut file, b"XMIC", &compress_rle(&p.xmic));
    push_chunk(&mut file, b"XTHG", &compress_rle(&p.xthg));
    push_chunk(&mut file, b"XGRP", &compress_rle(&p.xgrp));
    for t in &p.text {
        push_chunk(&mut file, b"TEXT", t);
    }
    if !p.scen.is_empty() {
        push_chunk(&mut file, b"SCEN", &p.scen);
    }
    if !p.pict.is_empty() {
        push_chunk(&mut file, b"PICT", &p.pict);
    }
    let declared = (file.len() - 8) as u32;
    file[4..8].copy_from_slice(&declared.to_be_bytes());
    file
}

fn registry_with(entries: &[(u8, u8, bool, bool, bool)]) -> BuildingRegistry {
    let mut reg = BuildingRegistry::new();
    for &(id, size, network, groundcover, highway) in entries {
        reg.set_entry(
            id,
            BuildingEntry {
                known: true,
                name: String::from("entry"),
                size,
                network,
                groundcover,
                highway_2x2: highway,
            },
        );
    }
    reg
}

#[test]
fn end_to_end_single_building() {
    // all planes zero except one building-id byte at (5, 5) with the corner
    // bit set for rotation 0: exactly one building at (5, 5), zero holes
    let mut p = zero_planes();
    let id = 0x70u8;
    p.xbld[5 * 128 + 5] = id;
    p.xzon[5 * 128 + 5] = 0x80;
    let file = build_city_file(&p);
    let reg = registry_with(&[(id, 1, false, false, false)]);

    let city = City::create_city_from_file(&file, "test.sc2", &reg).unwrap();
    assert_eq!(city.city_size, 128);
    assert_eq!(city.building_arena.len(), 1);
    assert_eq!(city.building_arena[0].building_id, id);
    assert_eq!(city.building_arena[0].tile_coords, (5, 5));
    assert_eq!(city.buildings, vec![((5, 5), 0)]);
    assert!(city.holes.is_empty());
    assert!(city.networks.is_empty());
    assert!(city.groundcover.is_empty());
    assert_eq!(city.tilelist[5 * 128 + 5].building, Some(0));
    assert_eq!(city.tilelist[5 * 128 + 6].building, None);
    assert!(!city.is_scenario);
}

#[test]
fn tile_fields_decode_from_parallel_planes() {
    let mut p = zero_planes();
    let idx = 7 * 128 + 3;
    // altitude word 0b00010011_01010110: tunnel 0b00010011, water bit 0,
    // unknown bits 10, surface altitude 0b10110
    p.altm[2 * idx] = 0b0001_0011;
    p.altm[2 * idx + 1] = 0b0101_0110;
    p.xter[idx] = 0x0D;
    p.xzon[idx] = 0b0010_0110; // corners 0010, zone 0110
    p.xund[idx] = 0x21;
    p.xtxt[idx] = 250;
    p.xbit[idx] = 0b1000_0001;
    let file = build_city_file(&p);
    let reg = BuildingRegistry::new();

    let city = City::create_city_from_file(&file, "test.sc2", &reg).unwrap();
    let tile = &city.tilelist[idx];
    assert_eq!(tile.coordinates, (7, 3));
    assert_eq!(tile.altitude_tunnel, 0b0001_0011);
    assert!(!tile.is_water);
    assert_eq!(tile.altitude_unknown, 0b10);
    assert_eq!(tile.altitude, 0b10110);
    assert_eq!(tile.terrain, 0x0D);
    assert_eq!(tile.zone_corners, "0010");
    assert_eq!(tile.zone, 0b0110);
    assert_eq!(tile.underground, 0x21);
    assert_eq!(tile.text_pointer, 250);
    let flags = tile.bit_flags.unwrap();
    assert!(flags.powerable);
    assert!(flags.salt);
    assert!(!flags.powered);

    // a zero altitude word decodes without failing
    assert_eq!(city.tilelist[0].altitude, 0);
    assert!(!city.tilelist[0].is_water);
}

#[test]
fn minimaps_read_their_planes() {
    let mut p = zero_planes();
    p.xtrf[3 * 64 + 2] = 9;
    p.xplt[0] = 4;
    p.xplc[5 * 32 + 1] = 8;
    let file = build_city_file(&p);
    let reg = BuildingRegistry::new();
    let city = City::create_city_from_file(&file, "test.sc2", &reg).unwrap();
    assert_eq!(city.traffic.data[3 * 64 + 2], 9);
    assert_eq!(*city.traffic.get_scaled((6, 4)), 9);
    assert_eq!(city.pollution.data[0], 4);
    assert_eq!(city.police.data[5 * 32 + 1], 8);
}

#[test]
fn city_name_comes_from_cnam_or_filename() {
    let mut p = zero_planes();
    p.cnam[0] = 4;
    p.cnam[1..5].copy_from_slice(b"HOME");
    let file = build_city_file(&p);
    let reg = BuildingRegistry::new();
    let city = City::create_city_from_file(&file, "whatever.sc2", &reg).unwrap();
    assert_eq!(city.city_name, "HOME");

    // an empty CNAM falls back to the uppercased file stem
    let p = zero_planes();
    let file = build_city_file(&p);
    let city = City::create_city_from_file(&file, "my town.sc2", &reg).unwrap();
    assert_eq!(city.city_name, "MY TOWN");
    assert_eq!(city.original_filename, "my town.sc2");

    // and the name is capped at 31 characters
    let city = City::create_city_from_file(
        &file,
        "abcdefghijklmnopqrstuvwxyz0123456789.sc2",
        &reg,
    )
    .unwrap();
    assert_eq!(city.city_name, "ABCDEFGHIJKLMNOPQRSTUVWXYZ01234");
    assert_eq!(city.city_name.len(), 31);
}

#[test]
fn labels_and_microsim_and_things_decode() {
    let mut p = zero_planes();
    p.xlab[0] = 3;
    p.xlab[1..4].copy_from_slice(b"ABC");
    p.xlab[25] = 0; // empty label contributes nothing
    p.xlab[50] = 2;
    p.xlab[51..53].copy_from_slice(b"XY");
    p.xmic[0..8].copy_from_slice(&[1, 2, 3, 4, 5, 6, 7, 8]);
    p.xthg[0] = 0x44;
    p.xthg[3] = 10;
    p.xthg[4] = 11;
    let file = build_city_file(&p);
    let reg = BuildingRegistry::new();
    let city = City::create_city_from_file(&file, "t.sc2", &reg).unwrap();
    assert_eq!(city.labels, vec![String::from("ABC"), String::from("XY")]);
    assert_eq!(city.microsim_state.len(), 8);
    assert_eq!(city.microsim_state[0], vec![1, 2, 3, 4, 5, 6, 7, 8]);
    assert_eq!(city.things.len(), 2);
    assert_eq!(city.things[0].thing_id, 0x44);
    assert_eq!(city.things[0].x, 10);
    assert_eq!(city.things[0].y, 11);
}

#[test]
fn history_graphs_decode_from_xgrp() {
    let mut p = zero_planes();
    p.xgrp[0..4].copy_from_slice(&42i32.to_be_bytes());
    p.xgrp[208..212].copy_from_slice(&(-7i32).to_be_bytes());
    let file = build_city_file(&p);
    let reg = BuildingRegistry::new();
    let city = City::create_city_from_file(&file, "t.sc2", &reg).unwrap();
    assert_eq!(city.graphs.len(), 16);
    assert_eq!(city.graphs[0].one_year[0], 42);
    assert_eq!(city.graphs[1].one_year[0], -7);
}

#[test]
fn compass_out_of_range_is_format_mismatch() {
    let mut p = zero_planes();
    p.misc[0x0008..0x000c].copy_from_slice(&7i32.to_be_bytes());
    let file = build_city_file(&p);
    let reg = BuildingRegistry::new();
    assert!(matches!(
        City::create_city_from_file(&file, "t.sc2", &reg),
        Err(Sc2Error::FormatMismatch)
    ));
}

#[test]
fn unknown_building_id_aborts_the_city() {
    let mut p = zero_planes();
    p.xbld[9] = 0x55;
    p.xzon[9] = 0x80;
    let file = build_city_file(&p);
    let reg = BuildingRegistry::new();
    assert!(matches!(
        City::create_city_from_file(&file, "t.sc2", &reg),
        Err(Sc2Error::UnknownLookupId { id: 0x55 })
    ));
}

#[test]
fn scenario_chunks_decode_when_all_present() {
    let mut p = zero_planes();
    let mut short_text = 0x8000_0000u32.to_be_bytes().to_vec();
    short_text.extend_from_slice(b"win\rfast");
    let mut long_text = 0x8100_0000u32.to_be_bytes().to_vec();
    long_text.extend_from_slice(b"the long story");
    let mut odd_text = 0x7700_0000u32.to_be_bytes().to_vec();
    odd_text.extend_from_slice(b"?");
    p.text = vec![short_text, long_text, odd_text];

    let mut scen = vec![0u8; 52];
    scen[4..6].copy_from_slice(&500u16.to_be_bytes()); // disaster type
    scen[6] = 60; // disaster x
    scen[7] = 61; // disaster y
    scen[10..14].copy_from_slice(&77777u32.to_be_bytes()); // city size goal
    scen[48..50].copy_from_slice(&9u16.to_be_bytes()); // item one tiles
    p.scen = scen;

    // picture: magic, 3x2 pixels, rows terminated by 255; second row bad
    let mut pict = vec![0x80, 0, 0, 0, 3, 0, 2, 0];
    pict.extend_from_slice(&[10, 11, 12, 255]);
    pict.extend_from_slice(&[20, 21, 22, 9]);
    p.pict = pict;

    let file = build_city_file(&p);
    let reg = BuildingRegistry::new();
    let city = City::create_city_from_file(&file, "t.sc2", &reg).unwrap();
    assert!(city.is_scenario);
    assert_eq!(city.scenario_text, "win\nfast");
    assert_eq!(city.scenario_descriptive_text, "the long story");
    assert_eq!(city.scenario_unknown_text_ids, vec![0x7700_0000]);
    let cond = city.scenario_condition.unwrap();
    assert_eq!(cond.disaster_type, 500);
    assert_eq!(cond.disaster_x_location, 60);
    assert_eq!(cond.disaster_y_location, 61);
    assert_eq!(cond.city_size_goal, 77777);
    assert_eq!(cond.item_one_tiles, 9);
    assert_eq!(city.scenario_pict, vec![10, 11, 12]);
    assert!(!city.scenario_bad_picture_magic);
    assert_eq!(city.scenario_bad_picture_rows, vec![1]);
}

#[test]
fn missing_scenario_chunks_mean_no_scenario() {
    let mut p = zero_planes();
    // a TEXT chunk alone does not make a scenario
    p.text = vec![vec![0, 0, 0, 0]];
    let file = build_city_file(&p);
    let reg = BuildingRegistry::new();
    let city = City::create_city_from_file(&file, "t.sc2", &reg).unwrap();
    assert!(!city.is_scenario);
    assert!(city.scenario_condition.is_none());
}

#[test]
fn truncated_city_file_is_rejected() {
    let p = zero_planes();
    let file = build_city_file(&p);
    assert!(matches!(
        City::create_city_from_file(&file[0..file.len() - 1], "t.sc2", &BuildingRegistry::new()),
        Err(Sc2Error::FormatMismatch)
    ));
}

#[test]
fn label_text_is_clamped_to_record_capacity() {
    let mut p = zero_planes();
    // a length byte larger than the 24 text bytes a record can hold
    p.xlab[0] = 200;
    for k in 0..24 {
        p.xlab[1 + k] = b'A' + (k % 26) as u8;
    }
    let file = build_city_file(&p);
    let city = City::create_city_from_file(&file, "t.sc2", &BuildingRegistry::new()).unwrap();
    assert_eq!(city.labels.len(), 1);
    assert_eq!(city.labels[0].len(), 24);
    assert_eq!(&city.labels[0][0..3], "ABC");
}

#[test]
fn bad_picture_magic_is_logged_not_fatal() {
    let mut p = zero_planes();
    p.text = vec![0x8000_0000u32.to_be_bytes().to_vec()];
    p.scen = vec![0u8; 52];
    p.pict = vec![1, 2, 3, 4, 0, 0, 0, 0]; // wrong magic, zero-sized image
    let file = build_city_file(&p);
    let city = City::create_city_from_file(&file, "t.sc2", &BuildingRegistry::new()).unwrap();
    assert!(city.is_scenario);
    assert!(city.scenario_bad_picture_magic);
    assert!(city.scenario_pict.is_empty());
}

#[test]
fn short_scenario_chunk_is_truncated_input() {
    let mut p = zero_planes();
    p.text = vec![0x8000_0000u32.to_be_bytes().to_vec()];
    p.scen = vec![0u8; 10];
    p.pict = vec![0x80, 0, 0, 0, 0, 0, 0, 0];
    let file = build_city_file(&p);
    assert!(matches!(
        City::create_city_from_file(&file, "t.sc2", &BuildingRegistry::new()),
        Err(Sc2Error::TruncatedInput)
    ));
}

#[test]
fn filename_without_extension_gives_empty_fallback_name() {
    let p = zero_planes();
    let file = build_city_file(&p);
    let city = City::create_city_from_file(&file, "plainname", &BuildingRegistry::new()).unwrap();
    assert_eq!(city.city_name, "");
}

#[test]
fn full_footprint_shares_one_building_instance() {
    let mut p = zero_planes();
    let id = 0x72u8;
    p.xzon[10 * 128 + 10] = 0x80;
    p.xbld[10 * 128 + 10] = id;
    p.xbld[10 * 128 + 9] = id;
    p.xbld[11 * 128 + 10] = id;
    p.xbld[11 * 128 + 9] = id;
    let file = build_city_file(&p);
    let reg = registry_with(&[(id, 2, false, false, false)]);
    let city = City::create_city_from_file(&file, "t.sc2", &reg).unwrap();
    // every tile of the footprint refers to the same arena entry
    assert_eq!(city.building_arena.len(), 1);
    for (r, c) in [(10, 10), (10, 9), (11, 10), (11, 9)] {
        assert_eq!(city.tilelist[r * 128 + c].building, Some(0));
    }
    assert!(city.holes.is_empty());
}
