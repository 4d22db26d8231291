use open_city_2k::bit_flags::BitFlags;
use open_city_2k::budget::Budget;
use open_city_2k::buildings::{BuildingEntry, BuildingRegistry};
use open_city_2k::errors::Sc2Error;
use open_city_2k::footprint::{find_buildings, left_corner_mask};
use open_city_2k::graph::Graph;
use open_city_2k::minimap::Minimap;
use open_city_2k::misc::{misc_uninterleave_data, parse_misc, parse_neighbours};
use open_city_2k::thing::Thing;

fn put_i32(buf: &mut [u8], off: usize, v: i32) {
    buf[off..off + 4].copy_from_slice(&v.to_be_bytes());
}

#[test]
fn corner_bit_table() {
    // rotation 0 origin bit = 0b1000; 1 = 0b0001; 2 = 0b0010; 3 = 0b0100
    assert_eq!(left_corner_mask(0), 0b1000);
    assert_eq!(left_corner_mask(1), 0b0001);
    assert_eq!(left_corner_mask(2), 0b0010);
    assert_eq!(left_corner_mask(3), 0b0100);
}

#[test]
fn bit_flags_decode_msb_first() {
    let f = BitFlags::from_byte(0b1011_0001);
    assert!(f.powerable);
    assert!(!f.powered);
    assert!(f.piped);
    assert!(f.watered);
    assert!(!f.xval);
    assert!(!f.water);
    assert!(!f.rotate);
    assert!(f.salt);
    assert_eq!(f.to_string(), "10110001");
    assert_eq!(f.to_u32(), 0b1011_0001);
    assert_eq!(BitFlags::from(0xFF).to_string(), "11111111");
    assert_eq!(BitFlags::from_byte(0).to_u32(), 0);
}

#[test]
fn minimap_scales_coordinates() {
    let mut m = Minimap::new(String::from("traffic"), 64);
    m.set_item((3, 5), 42);
    // a size-64 grid maps 2x2 full-resolution tiles to one cell
    assert_eq!(*m.get_scaled((6, 10)), 42);
    assert_eq!(*m.get_scaled((7, 11)), 42);
    assert_eq!(*m.get_scaled((0, 0)), 0);

    let mut small = Minimap::new(String::from("police"), 32);
    small.set_scaled((8, 12), 7);
    // a size-32 grid maps 4x4 full-resolution tiles to one cell
    assert_eq!(*small.get_scaled((8, 12)), 7);
    assert_eq!(*small.get_scaled((11, 15)), 7);
}

#[test]
fn graph_decodes_three_series() {
    let mut seg = vec![0u8; 208];
    put_i32(&mut seg, 0, 11);
    put_i32(&mut seg, 44, 12);
    put_i32(&mut seg, 48, -21);
    put_i32(&mut seg, 124, 22);
    put_i32(&mut seg, 128, 31);
    put_i32(&mut seg, 204, -32);
    let g = Graph::parse_graph(&seg);
    assert_eq!(g.one_year[0], 11);
    assert_eq!(g.one_year[11], 12);
    assert_eq!(g.ten_years[0], -21);
    assert_eq!(g.ten_years[19], 22);
    assert_eq!(g.hundred_years[0], 31);
    assert_eq!(g.hundred_years[19], -32);
}

#[test]
fn thing_splits_its_record() {
    let t = Thing::parse_thing(&[1, 2, 3, 4, 5, 6, 7, 8, 9, 10, 11, 12]);
    assert_eq!(t.thing_id, 1);
    assert_eq!(t.rotation_1, 2);
    assert_eq!(t.rotation_2, 3);
    assert_eq!(t.x, 4);
    assert_eq!(t.y, 5);
    assert_eq!(t.data, vec![6, 7, 8, 9, 10, 11, 12]);
}

#[test]
fn parameter_block_offsets_decode_sentinels() {
    let mut misc = vec![0u8; 4800];
    put_i32(&mut misc, 0x0004, 0x01020304); // GameMode
    put_i32(&mut misc, 0x0008, 2); // Compass
    put_i32(&mut misc, 0x0014, -77); // TotalFunds
    put_i32(&mut misc, 0x05f0, 123); // first zone population
    put_i32(&mut misc, 0x0e3c, 55); // YearEnd
    put_i32(&mut misc, 0x0ff0, 1); // AutoBudget
    put_i32(&mut misc, 0x0738, 9); // gas power invention
    put_i32(&mut misc, 0x01f0, 41); // first tile count
    put_i32(&mut misc, 0x01f0 + 255 * 4, 42); // last tile count
    put_i32(&mut misc, 0x1050, 61); // first extra slot
    put_i32(&mut misc, 4796, 62); // last extra slot

    let params = parse_misc(&misc);
    assert_eq!(params.city_attributes.game_mode, 0x01020304);
    assert_eq!(params.simulator_settings.compass, 2);
    assert_eq!(params.city_attributes.total_funds, -77);
    assert_eq!(params.city_attributes.zone_pop[0], 123);
    assert_eq!(params.simulator_settings.year_end, 55);
    assert_eq!(params.game_settings.auto_budget, 1);
    assert_eq!(params.inventions.gas_power, 9);
    assert_eq!(params.building_count.len(), 256);
    assert_eq!(params.building_count[0], 41);
    assert_eq!(params.building_count[255], 42);
    assert_eq!(params.city_attributes.extra[0], 61);
    assert_eq!(params.city_attributes.extra[155], 62);
}

#[test]
fn neighbour_records_use_rotated_field_order() {
    let mut misc = vec![0u8; 4800];
    // first neighbour record at 0x06D8: value, fame, name, population
    put_i32(&mut misc, 0x06d8, 300); // in-record offset 0 -> value
    put_i32(&mut misc, 0x06dc, 400); // in-record offset 4 -> fame
    put_i32(&mut misc, 0x06e0, 100); // in-record offset 8 -> name
    put_i32(&mut misc, 0x06e4, 200); // in-record offset 12 -> population
    let n = parse_neighbours(&misc);
    assert_eq!(n.len(), 4);
    assert_eq!(n[0].name, 100);
    assert_eq!(n[0].population, 200);
    assert_eq!(n[0].value, 300);
    assert_eq!(n[0].fame, 400);
}

#[test]
fn graph_series_deinterleave_round_robin() {
    let mut misc = vec![0u8; 4800];
    // population graphs start at 0x007C, three series interleaved
    put_i32(&mut misc, 0x007c, 1);
    put_i32(&mut misc, 0x0080, 2);
    put_i32(&mut misc, 0x0084, 3);
    put_i32(&mut misc, 0x0088, 4);
    let params = parse_misc(&misc);
    assert_eq!(params.population_graphs.population_percent.len(), 20);
    assert_eq!(params.population_graphs.population_percent[0], 1);
    assert_eq!(params.population_graphs.health_le[0], 2);
    assert_eq!(params.population_graphs.education_eq[0], 3);
    assert_eq!(params.population_graphs.population_percent[1], 4);

    let series = misc_uninterleave_data(3, 0x007c, 240, &misc);
    assert_eq!(series[0][0], 1);
    assert_eq!(series[1][0], 2);
    assert_eq!(series[2][0], 3);
}

#[test]
fn budget_reads_fixed_offsets() {
    let mut misc = vec![0u8; 4800];
    misc[0x0fa0..0x0fa4].copy_from_slice(&0xC000_0000u32.to_be_bytes());
    put_i32(&mut misc, 0x0610, 5000); // first bond
    put_i32(&mut misc, 0x0610 + 49 * 4, 6000); // last bond
    put_i32(&mut misc, 0x077c, 12); // residential current count
    put_i32(&mut misc, 0x077c + 4, 34); // residential current funding
    put_i32(&mut misc, 0x0dd0, 56); // tunnel current count

    let b = Budget::from_misc_data(&misc);
    // 20 ordinance booleans, most significant bit of the flag word first
    assert_eq!(b.ordinance_flags.len(), 20);
    assert_eq!(b.ordinance_flags[0], 1);
    assert_eq!(b.ordinance_flags[1], 1);
    assert_eq!(b.ordinance_flags[2], 0);
    assert_eq!(b.bonds.len(), 50);
    assert_eq!(b.bonds[0], 5000);
    assert_eq!(b.bonds[49], 6000);
    assert_eq!(b.budget_items.residential.current_count, 12);
    assert_eq!(b.budget_items.residential.current_funding, 34);
    assert_eq!(b.budget_items.tunnel.current_count, 56);
}

fn registry_with(entries: &[(u8, u8, bool, bool, bool)]) -> BuildingRegistry {
    let mut reg = BuildingRegistry::new();
    for &(id, size, network, groundcover, highway) in entries {
        reg.set_entry(
            id,
            BuildingEntry {
                known: true,
                name: String::from("entry"),
                size,
                network,
                groundcover,
                highway_2x2: highway,
            },
        );
    }
    reg
}

#[test]
fn footprint_scan_attaches_matching_tiles_and_logs_holes() {
    let mut xbld = vec![0u8; 16384];
    let mut xzon = vec![0u8; 16384];
    let id = 0x70u8;
    // a 2x2 building with origin at (2, 2): rows 2..4, columns 1..=2
    xzon[2 * 128 + 2] = 0x80; // corner bit 0b1000 for rotation 0
    xbld[2 * 128 + 2] = id;
    xbld[2 * 128 + 1] = id;
    xbld[3 * 128 + 2] = id;
    // (3, 1) carries a different id: a hole
    xbld[3 * 128 + 1] = 0x33;

    let reg = registry_with(&[(id, 2, false, false, false)]);
    let p = find_buildings(&xbld, &xzon, 0, &reg).unwrap();

    assert_eq!(p.arena.len(), 1);
    assert_eq!(p.arena[0].building_id, id);
    assert_eq!(p.arena[0].tile_coords, (2, 2));
    assert_eq!(p.arena[0].size, 2);
    assert_eq!(p.buildings, vec![((2, 2), 0)]);
    assert_eq!(p.attachments[2 * 128 + 2], Some(0));
    assert_eq!(p.attachments[2 * 128 + 1], Some(0));
    assert_eq!(p.attachments[3 * 128 + 2], Some(0));
    assert_eq!(p.attachments[3 * 128 + 1], None);
    assert_eq!(p.holes, vec![(3, 1)]);
}

#[test]
fn groundcover_and_networks_are_recorded_individually() {
    let mut xbld = vec![0u8; 16384];
    let xzon = vec![0u8; 16384];
    xbld[5] = 0x10; // groundcover
    xbld[6] = 0x20; // plain network
    xbld[7] = 0x30; // 2x2 highway piece: only placed through the corner scan
    let reg = registry_with(&[
        (0x10, 1, false, true, false),
        (0x20, 1, true, false, false),
        (0x30, 2, true, false, true),
    ]);
    let p = find_buildings(&xbld, &xzon, 0, &reg).unwrap();
    assert_eq!(p.groundcover, vec![((0, 5), 0)]);
    assert_eq!(p.networks, vec![((0, 6), 1)]);
    assert_eq!(p.arena.len(), 2);
    assert_eq!(p.attachments[7], None);
    assert!(p.holes.is_empty());
}

#[test]
fn unknown_origin_id_is_fatal() {
    let mut xbld = vec![0u8; 16384];
    let mut xzon = vec![0u8; 16384];
    xzon[10] = 0x80;
    xbld[10] = 0x42;
    let reg = BuildingRegistry::new();
    assert!(matches!(
        find_buildings(&xbld, &xzon, 0, &reg),
        Err(Sc2Error::UnknownLookupId { id: 0x42 })
    ));
}

#[test]
fn footprint_row_clamp_at_map_edge() {
    let mut xbld = vec![0u8; 16384];
    let mut xzon = vec![0u8; 16384];
    let id = 0x71u8;
    // a 3x3 origin near the bottom edge: rows clamp at 127
    xzon[126 * 128 + 10] = 0x80;
    for c in 8..=10usize {
        xbld[126 * 128 + c] = id;
        xbld[127 * 128 + c] = id;
    }
    let reg = registry_with(&[(id, 3, false, false, false)]);
    let p = find_buildings(&xbld, &xzon, 0, &reg).unwrap();
    // only row 126 is scanned: the clamp stops before row 127
    assert_eq!(p.attachments[126 * 128 + 9], Some(0));
    assert_eq!(p.attachments[127 * 128 + 9], None);
    assert!(p.holes.is_empty());
}
