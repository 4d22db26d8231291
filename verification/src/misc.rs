//! Table-driven decode of the flat 4800-byte parameter block: scalar city
//! attributes, themed simulator / game / invention settings, interleaved
//! statistic series, tile counts, neighbour records and the budget.

use vstd::prelude::*;

use crate::budget::Budget;
use crate::graph::int_at;
use crate::sc_util;

verus! {

/// Reads the signed 32-bit big-endian integer at `off`.
fn read_i32(b: &[u8], off: usize) -> (r: i32)
    requires
        b@.len() == 4800,
        off + 4 <= 4800,
    ensures
        r == int_at(b@, off as int),
{
    let chunk = [b[off], b[off + 1], b[off + 2], b[off + 3]];
    sc_util::parse_int32(&chunk)
}

/// Reads `count` sequential signed 32-bit integers starting at `off`.
fn read_i32_list(b: &[u8], off: usize, count: usize) -> (r: Vec<i32>)
    requires
        b@.len() == 4800,
        off + 4 * count <= 4800,
    ensures
        r@.len() == count,
        forall|k: int| 0 <= k < count ==> r@[k] == int_at(b@, off + 4 * k),
{
    let mut r: Vec<i32> = Vec::new();
    let mut k: usize = 0;
    while k < count
        invariant
            b@.len() == 4800,
            off + 4 * count <= 4800,
            k <= count,
            r@.len() == k,
            forall|m: int| 0 <= m < k ==> r@[m] == int_at(b@, off + 4 * m),
        decreases count - k,
    {
        r.push(read_i32(b, off + 4 * k));
        k = k + 1;
    }
    r
}

/// Scalar city attributes and indexed lists of the parameter block.
#[derive(Debug)]
pub struct CityAttributes {
    pub first_entry: i32,
    pub game_mode: i32,
    pub base_year: i32,
    pub sim_cycle: i32,
    pub total_funds: i32,
    pub total_bonds: i32,
    pub game_level: i32,
    pub city_status: i32,
    pub city_value: i32,
    pub land_value: i32,
    pub crime_count: i32,
    pub traffic_count: i32,
    pub pollution: i32,
    pub city_fame: i32,
    pub advertising: i32,
    pub garbage: i32,
    pub worker_percent: i32,
    pub worker_health: i32,
    pub worker_educate: i32,
    pub national_pop: i32,
    pub national_value: i32,
    pub national_tax: i32,
    pub national_trend: i32,
    pub heat: i32,
    pub wind: i32,
    pub humid: i32,
    pub weather_trend: i32,
    pub new_disaster: i32,
    pub old_res_pop: i32,
    pub rewards: i32,
    pub unemployed: i32,
    pub subway_cnt: i32,
    pub paper_deliver: i32,
    pub paper_extra: i32,
    pub paper_choice: i32,
    pub unknown128: i32,
    pub global_arco_pop: i32,
    pub connect_tiles: i32,
    pub teams_active: i32,
    pub total_pop: i32,
    pub industry_bonus: i32,
    pub pollute_bonus: i32,
    pub old_arrest: i32,
    pub police_bonus: i32,
    pub disaster_object: i32,
    pub current_disaster: i32,
    pub go_disaster: i32,
    pub sewer_bonus: i32,
    pub zone_pop: Vec<i32>,
    pub valve: Vec<i32>,
    pub military_count: Vec<i32>,
    pub paper_list: Vec<i32>,
    pub news_list: Vec<i32>,
    pub extra: Vec<i32>,
}

/// The CityAttributes fields hold exactly the table entries of the parameter
/// block bytes `b`, each at its fixed offset.
pub open spec fn city_attributes_decoded(r: CityAttributes, b: Seq<u8>) -> bool {
    &&& r.first_entry == int_at(b, 0x0)
    &&& r.game_mode == int_at(b, 0x4)
    &&& r.base_year == int_at(b, 0xc)
    &&& r.sim_cycle == int_at(b, 0x10)
    &&& r.total_funds == int_at(b, 0x14)
    &&& r.total_bonds == int_at(b, 0x18)
    &&& r.game_level == int_at(b, 0x1c)
    &&& r.city_status == int_at(b, 0x20)
    &&& r.city_value == int_at(b, 0x24)
    &&& r.land_value == int_at(b, 0x28)
    &&& r.crime_count == int_at(b, 0x2c)
    &&& r.traffic_count == int_at(b, 0x30)
    &&& r.pollution == int_at(b, 0x34)
    &&& r.city_fame == int_at(b, 0x38)
    &&& r.advertising == int_at(b, 0x3c)
    &&& r.garbage == int_at(b, 0x40)
    &&& r.worker_percent == int_at(b, 0x44)
    &&& r.worker_health == int_at(b, 0x48)
    &&& r.worker_educate == int_at(b, 0x4c)
    &&& r.national_pop == int_at(b, 0x50)
    &&& r.national_value == int_at(b, 0x54)
    &&& r.national_tax == int_at(b, 0x58)
    &&& r.national_trend == int_at(b, 0x5c)
    &&& r.heat == int_at(b, 0x60)
    &&& r.wind == int_at(b, 0x64)
    &&& r.humid == int_at(b, 0x68)
    &&& r.weather_trend == int_at(b, 0x6c)
    &&& r.new_disaster == int_at(b, 0x70)
    &&& r.old_res_pop == int_at(b, 0x74)
    &&& r.rewards == int_at(b, 0x78)
    &&& r.unemployed == int_at(b, 0xfa4)
    &&& r.subway_cnt == int_at(b, 0xfe8)
    &&& r.paper_deliver == int_at(b, 0x1004)
    &&& r.paper_extra == int_at(b, 0x1008)
    &&& r.paper_choice == int_at(b, 0x100c)
    &&& r.unknown128 == int_at(b, 0x1010)
    &&& r.global_arco_pop == int_at(b, 0x1020)
    &&& r.connect_tiles == int_at(b, 0x1024)
    &&& r.teams_active == int_at(b, 0x1028)
    &&& r.total_pop == int_at(b, 0x102c)
    &&& r.industry_bonus == int_at(b, 0x1030)
    &&& r.pollute_bonus == int_at(b, 0x1034)
    &&& r.old_arrest == int_at(b, 0x1038)
    &&& r.police_bonus == int_at(b, 0x103c)
    &&& r.disaster_object == int_at(b, 0x1040)
    &&& r.current_disaster == int_at(b, 0x1044)
    &&& r.go_disaster == int_at(b, 0x1048)
    &&& r.sewer_bonus == int_at(b, 0x104c)
    &&& r.zone_pop@.len() == 8
    &&& forall|k: int| 0 <= k < 8 ==> #[trigger] r.zone_pop@[k] == int_at(b, 0x5f0 + 4 * k)
    &&& r.valve@.len() == 8
    &&& forall|k: int| 0 <= k < 8 ==> #[trigger] r.valve@[k] == int_at(b, 0x718 + 4 * k)
    &&& r.military_count@.len() == 16
    &&& forall|k: int| 0 <= k < 16 ==> #[trigger] r.military_count@[k] == int_at(b, 0xfa8 + 4 * k)
    &&& r.paper_list@.len() == 30
    &&& forall|k: int| 0 <= k < 30 ==> #[trigger] r.paper_list@[k] == int_at(b, 0xe50 + 4 * k)
    &&& r.news_list@.len() == 54
    &&& forall|k: int| 0 <= k < 54 ==> #[trigger] r.news_list@[k] == int_at(b, 0xec8 + 4 * k)
    &&& r.extra@.len() == 156
    &&& forall|k: int| 0 <= k < 156 ==> #[trigger] r.extra@[k] == int_at(b, 0x1050 + 4 * k)
}

/// Decodes the CityAttributes entries, each at its fixed offset.
#[verifier::rlimit(100)]
#[verifier::spinoff_prover]
pub fn parse_city_attributes(misc_data: &[u8]) -> (r: CityAttributes)
    requires
        misc_data@.len() == 4800,
    ensures
        city_attributes_decoded(r, misc_data@),
{
    CityAttributes {
        first_entry: read_i32(misc_data, 0x0),
        game_mode: read_i32(misc_data, 0x4),
        base_year: read_i32(misc_data, 0xc),
        sim_cycle: read_i32(misc_data, 0x10),
        total_funds: read_i32(misc_data, 0x14),
        total_bonds: read_i32(misc_data, 0x18),
        game_level: read_i32(misc_data, 0x1c),
        city_status: read_i32(misc_data, 0x20),
        city_value: read_i32(misc_data, 0x24),
        land_value: read_i32(misc_data, 0x28),
        crime_count: read_i32(misc_data, 0x2c),
        traffic_count: read_i32(misc_data, 0x30),
        pollution: read_i32(misc_data, 0x34),
        city_fame: read_i32(misc_data, 0x38),
        advertising: read_i32(misc_data, 0x3c),
        garbage: read_i32(misc_data, 0x40),
        worker_percent: read_i32(misc_data, 0x44),
        worker_health: read_i32(misc_data, 0x48),
        worker_educate: read_i32(misc_data, 0x4c),
        national_pop: read_i32(misc_data, 0x50),
        national_value: read_i32(misc_data, 0x54),
        national_tax: read_i32(misc_data, 0x58),
        national_trend: read_i32(misc_data, 0x5c),
        heat: read_i32(misc_data, 0x60),
        wind: read_i32(misc_data, 0x64),
        humid: read_i32(misc_data, 0x68),
        weather_trend: read_i32(misc_data, 0x6c),
        new_disaster: read_i32(misc_data, 0x70),
        old_res_pop: read_i32(misc_data, 0x74),
        rewards: read_i32(misc_data, 0x78),
        unemployed: read_i32(misc_data, 0xfa4),
        subway_cnt: read_i32(misc_data, 0xfe8),
        paper_deliver: read_i32(misc_data, 0x1004),
        paper_extra: read_i32(misc_data, 0x1008),
        paper_choice: read_i32(misc_data, 0x100c),
        unknown128: read_i32(misc_data, 0x1010),
        global_arco_pop: read_i32(misc_data, 0x1020),
        connect_tiles: read_i32(misc_data, 0x1024),
        teams_active: read_i32(misc_data, 0x1028),
        total_pop: read_i32(misc_data, 0x102c),
        industry_bonus: read_i32(misc_data, 0x1030),
        pollute_bonus: read_i32(misc_data, 0x1034),
        old_arrest: read_i32(misc_data, 0x1038),
        police_bonus: read_i32(misc_data, 0x103c),
        disaster_object: read_i32(misc_data, 0x1040),
        current_disaster: read_i32(misc_data, 0x1044),
        go_disaster: read_i32(misc_data, 0x1048),
        sewer_bonus: read_i32(misc_data, 0x104c),
        zone_pop: read_i32_list(misc_data, 0x5f0, 8),
        valve: read_i32_list(misc_data, 0x718, 8),
        military_count: read_i32_list(misc_data, 0xfa8, 16),
        paper_list: read_i32_list(misc_data, 0xe50, 30),
        news_list: read_i32_list(misc_data, 0xec8, 54),
        extra: read_i32_list(misc_data, 0x1050, 156),
    }
}


/// The nine simulator settings.
#[derive(Debug)]
pub struct SimulatorSettings {
    pub year_end: i32,
    pub global_sea_level: i32,
    pub ter_coast: i32,
    pub ter_river: i32,
    pub military: i32,
    pub zoom: i32,
    pub compass: i32,
    pub city_cent_x: i32,
    pub city_cent_y: i32,
}

/// The SimulatorSettings fields hold exactly the table entries of the parameter
/// block bytes `b`, each at its fixed offset.
pub open spec fn simulator_settings_decoded(r: SimulatorSettings, b: Seq<u8>) -> bool {
    &&& r.year_end == int_at(b, 0xe3c)
    &&& r.global_sea_level == int_at(b, 0xe40)
    &&& r.ter_coast == int_at(b, 0xe44)
    &&& r.ter_river == int_at(b, 0xe48)
    &&& r.military == int_at(b, 0xe4c)
    &&& r.zoom == int_at(b, 0x1014)
    &&& r.compass == int_at(b, 0x8)
    &&& r.city_cent_x == int_at(b, 0x1018)
    &&& r.city_cent_y == int_at(b, 0x101c)
}

/// Decodes the SimulatorSettings entries, each at its fixed offset.
#[verifier::rlimit(100)]
pub fn parse_simulator_settings(misc_data: &[u8]) -> (r: SimulatorSettings)
    requires
        misc_data@.len() == 4800,
    ensures
        simulator_settings_decoded(r, misc_data@),
{
    SimulatorSettings {
        year_end: read_i32(misc_data, 0xe3c),
        global_sea_level: read_i32(misc_data, 0xe40),
        ter_coast: read_i32(misc_data, 0xe44),
        ter_river: read_i32(misc_data, 0xe48),
        military: read_i32(misc_data, 0xe4c),
        zoom: read_i32(misc_data, 0x1014),
        compass: read_i32(misc_data, 0x8),
        city_cent_x: read_i32(misc_data, 0x1018),
        city_cent_y: read_i32(misc_data, 0x101c),
    }
}


/// The six game settings.
#[derive(Debug)]
pub struct GameSettings {
    pub game_speed: i32,
    pub auto_budget: i32,
    pub auto_go: i32,
    pub user_sound_on: i32,
    pub user_music_on: i32,
    pub no_disasters: i32,
}

/// The GameSettings fields hold exactly the table entries of the parameter
/// block bytes `b`, each at its fixed offset.
pub open spec fn game_settings_decoded(r: GameSettings, b: Seq<u8>) -> bool {
    &&& r.game_speed == int_at(b, 0xfec)
    &&& r.auto_budget == int_at(b, 0xff0)
    &&& r.auto_go == int_at(b, 0xff4)
    &&& r.user_sound_on == int_at(b, 0xff8)
    &&& r.user_music_on == int_at(b, 0xffc)
    &&& r.no_disasters == int_at(b, 0x1000)
}

/// Decodes the GameSettings entries, each at its fixed offset.
#[verifier::rlimit(100)]
pub fn parse_game_settings(misc_data: &[u8]) -> (r: GameSettings)
    requires
        misc_data@.len() == 4800,
    ensures
        game_settings_decoded(r, misc_data@),
{
    GameSettings {
        game_speed: read_i32(misc_data, 0xfec),
        auto_budget: read_i32(misc_data, 0xff0),
        auto_go: read_i32(misc_data, 0xff4),
        user_sound_on: read_i32(misc_data, 0xff8),
        user_music_on: read_i32(misc_data, 0xffc),
        no_disasters: read_i32(misc_data, 0x1000),
    }
}


/// The seventeen invention flags.
#[derive(Debug)]
pub struct Inventions {
    pub gas_power: i32,
    pub nuclear_power: i32,
    pub solar_power: i32,
    pub wind_power: i32,
    pub microwave_power: i32,
    pub fusion_power: i32,
    pub airport: i32,
    pub highways: i32,
    pub buses: i32,
    pub subways: i32,
    pub water_treatment: i32,
    pub desalinisation: i32,
    pub plymouth: i32,
    pub forest: i32,
    pub darco: i32,
    pub launch: i32,
    pub highway_2: i32,
}

/// The Inventions fields hold exactly the table entries of the parameter
/// block bytes `b`, each at its fixed offset.
pub open spec fn inventions_decoded(r: Inventions, b: Seq<u8>) -> bool {
    &&& r.gas_power == int_at(b, 0x738)
    &&& r.nuclear_power == int_at(b, 0x73c)
    &&& r.solar_power == int_at(b, 0x740)
    &&& r.wind_power == int_at(b, 0x744)
    &&& r.microwave_power == int_at(b, 0x748)
    &&& r.fusion_power == int_at(b, 0x74c)
    &&& r.airport == int_at(b, 0x750)
    &&& r.highways == int_at(b, 0x754)
    &&& r.buses == int_at(b, 0x758)
    &&& r.subways == int_at(b, 0x75c)
    &&& r.water_treatment == int_at(b, 0x760)
    &&& r.desalinisation == int_at(b, 0x764)
    &&& r.plymouth == int_at(b, 0x768)
    &&& r.forest == int_at(b, 0x76c)
    &&& r.darco == int_at(b, 0x770)
    &&& r.launch == int_at(b, 0x774)
    &&& r.highway_2 == int_at(b, 0x778)
}

/// Decodes the Inventions entries, each at its fixed offset.
#[verifier::rlimit(100)]
pub fn parse_inventions(misc_data: &[u8]) -> (r: Inventions)
    requires
        misc_data@.len() == 4800,
    ensures
        inventions_decoded(r, misc_data@),
{
    Inventions {
        gas_power: read_i32(misc_data, 0x738),
        nuclear_power: read_i32(misc_data, 0x73c),
        solar_power: read_i32(misc_data, 0x740),
        wind_power: read_i32(misc_data, 0x744),
        microwave_power: read_i32(misc_data, 0x748),
        fusion_power: read_i32(misc_data, 0x74c),
        airport: read_i32(misc_data, 0x750),
        highways: read_i32(misc_data, 0x754),
        buses: read_i32(misc_data, 0x758),
        subways: read_i32(misc_data, 0x75c),
        water_treatment: read_i32(misc_data, 0x760),
        desalinisation: read_i32(misc_data, 0x764),
        plymouth: read_i32(misc_data, 0x768),
        forest: read_i32(misc_data, 0x76c),
        darco: read_i32(misc_data, 0x770),
        launch: read_i32(misc_data, 0x774),
        highway_2: read_i32(misc_data, 0x778),
    }
}

/// One neighbouring city: four fields stored in rotated order inside its
/// 16-byte record (the field at in-record offset `o` is field
/// `((o + 8) mod 16) / 4` of name, population, value, fame).
#[derive(Debug)]
pub struct Neighbour {
    pub name: i32,
    pub population: i32,
    pub value: i32,
    pub fame: i32,
}

/// Decodes the four neighbour records at 0x06D8, preserving the rotated
/// field order within each 16-byte record.
pub fn parse_neighbours(misc_data: &[u8]) -> (r: Vec<Neighbour>)
    requires
        misc_data@.len() == 4800,
    ensures
        r@.len() == 4,
        forall|n: int|
            0 <= n < 4 ==> (#[trigger] r@[n]).name == int_at(misc_data@, 0x06d8 + 16 * n + 8)
                && r@[n].population == int_at(misc_data@, 0x06d8 + 16 * n + 12) && r@[n].value
                == int_at(misc_data@, 0x06d8 + 16 * n) && r@[n].fame == int_at(
                misc_data@,
                0x06d8 + 16 * n + 4,
            ),
{
    let mut r: Vec<Neighbour> = Vec::new();
    let mut n: usize = 0;
    while n < 4
        invariant
            misc_data@.len() == 4800,
            n <= 4,
            r@.len() == n,
            forall|m: int|
                0 <= m < n ==> (#[trigger] r@[m]).name == int_at(misc_data@, 0x06d8 + 16 * m + 8)
                    && r@[m].population == int_at(misc_data@, 0x06d8 + 16 * m + 12) && r@[m].value
                    == int_at(misc_data@, 0x06d8 + 16 * m) && r@[m].fame == int_at(
                    misc_data@,
                    0x06d8 + 16 * m + 4,
                ),
        decreases 4 - n,
    {
        let base = 0x06d8 + 16 * n;
        r.push(
            Neighbour {
                name: read_i32(misc_data, base + 8),
                population: read_i32(misc_data, base + 12),
                value: read_i32(misc_data, base),
                fame: read_i32(misc_data, base + 4),
            },
        );
        n = n + 1;
    }
    r
}

/// Splits an interleaved region into `num_keys` series: the i-th 4-byte
/// value belongs to series `i mod num_keys`.
pub fn misc_uninterleave_data(num_keys: usize, offset: usize, length: usize, misc_data: &[u8]) -> (r:
    Vec<Vec<i32>>)
    requires
        misc_data@.len() == 4800,
        offset + length <= 4800,
        1 <= num_keys <= 4,
        length % 4 == 0,
        (length as int / 4) % (num_keys as int) == 0,
    ensures
        r@.len() == num_keys,
        forall|s: int|
            0 <= s < num_keys ==> (#[trigger] r@[s])@.len() == length / 4 / num_keys,
        forall|s: int, j: int|
            0 <= s < num_keys && 0 <= j < length / 4 / num_keys ==> (#[trigger] r@[s]@[j])
                == int_at(misc_data@, offset + 4 * (j * num_keys + s)),
{
    let per = length / 4 / num_keys;
    let mut r: Vec<Vec<i32>> = Vec::new();
    let mut s: usize = 0;
    while s < num_keys
        invariant
            misc_data@.len() == 4800,
            offset + length <= 4800,
            1 <= num_keys <= 4,
            per == length / 4 / num_keys,
            length % 4 == 0,
            (length as int / 4) % (num_keys as int) == 0,
            s <= num_keys,
            r@.len() == s,
            forall|t: int| 0 <= t < s ==> (#[trigger] r@[t])@.len() == per,
            forall|t: int, j: int|
                0 <= t < s && 0 <= j < per ==> (#[trigger] r@[t]@[j]) == int_at(
                    misc_data@,
                    offset + 4 * (j * num_keys + t),
                ),
        decreases num_keys - s,
    {
        let mut series: Vec<i32> = Vec::new();
        let mut j: usize = 0;
        while j < per
            invariant
                misc_data@.len() == 4800,
                offset + length <= 4800,
                1 <= num_keys <= 4,
                s < num_keys,
                per == length / 4 / num_keys,
                length % 4 == 0,
                (length as int / 4) % (num_keys as int) == 0,
                j <= per,
                series@.len() == j,
                forall|m: int|
                    0 <= m < j ==> series@[m] == int_at(misc_data@, offset + 4 * (m * num_keys
                        + s)),
            decreases per - j,
        {
            proof {
                assert(4 * (j * num_keys + s) + 4 <= length) by (nonlinear_arith)
                    requires
                        j < per,
                        s < num_keys,
                        per == length as int / 4 / (num_keys as int),
                        (length as int / 4) % (num_keys as int) == 0,
                        length % 4 == 0,
                        1 <= num_keys <= 4,
                        0 <= length,
                ;
            }
            series.push(read_i32(misc_data, offset + 4 * (j * num_keys + s)));
            j = j + 1;
        }
        r.push(series);
        s = s + 1;
    }
    r
}

/// The three interleaved population series: overall percentage, health and
/// life expectancy, education quotient.
#[derive(Debug)]
pub struct PopulationGraphs {
    pub population_percent: Vec<i32>,
    pub health_le: Vec<i32>,
    pub education_eq: Vec<i32>,
}

/// The three interleaved industry series: ratios, tax rate, demand.
#[derive(Debug)]
pub struct IndustryGraphs {
    pub industrial_ratios: Vec<i32>,
    pub industrial_tax_rate: Vec<i32>,
    pub industrial_demand: Vec<i32>,
}

/// Everything decoded from the 4800-byte parameter block.
#[derive(Debug)]
pub struct MiscParams {
    pub city_attributes: CityAttributes,
    pub simulator_settings: SimulatorSettings,
    pub game_settings: GameSettings,
    pub inventions: Inventions,
    pub population_graphs: PopulationGraphs,
    pub industry_graphs: IndustryGraphs,
    /// 256 per-building-id tile counts.
    pub building_count: Vec<i32>,
    pub neighbor_info: Vec<Neighbour>,
    pub budget: Budget,
}

/// Decodes the whole parameter block: every table entry at its fixed offset.
#[verifier::rlimit(100)]
pub fn parse_misc(misc_data: &[u8]) -> (r: MiscParams)
    requires
        misc_data@.len() == 4800,
    ensures
        city_attributes_decoded(r.city_attributes, misc_data@),
        r.population_graphs.population_percent@.len() == 20,
        r.population_graphs.health_le@.len() == 20,
        r.population_graphs.education_eq@.len() == 20,
        forall|j: int|
            0 <= j < 20 ==> r.population_graphs.population_percent@[j] == int_at(
                misc_data@,
                0x007c + 12 * j,
            ) && r.population_graphs.health_le@[j] == int_at(misc_data@, 0x007c + 12 * j + 4)
                && r.population_graphs.education_eq@[j] == int_at(misc_data@, 0x007c + 12 * j + 8),
        r.industry_graphs.industrial_ratios@.len() == 11,
        r.industry_graphs.industrial_tax_rate@.len() == 11,
        r.industry_graphs.industrial_demand@.len() == 11,
        forall|j: int|
            0 <= j < 11 ==> r.industry_graphs.industrial_ratios@[j] == int_at(
                misc_data@,
                0x016c + 12 * j,
            ) && r.industry_graphs.industrial_tax_rate@[j] == int_at(misc_data@, 0x016c + 12 * j
                + 4) && r.industry_graphs.industrial_demand@[j] == int_at(
                misc_data@,
                0x016c + 12 * j + 8,
            ),
        r.building_count@.len() == 256,
        forall|k: int| 0 <= k < 256 ==> r.building_count@[k] == int_at(misc_data@, 0x01f0 + 4 * k),
        r.neighbor_info@.len() == 4,
        forall|n: int|
            0 <= n < 4 ==> (#[trigger] r.neighbor_info@[n]).name == int_at(
                misc_data@,
                0x06d8 + 16 * n + 8,
            ) && r.neighbor_info@[n].population == int_at(misc_data@, 0x06d8 + 16 * n + 12)
                && r.neighbor_info@[n].value == int_at(misc_data@, 0x06d8 + 16 * n)
                && r.neighbor_info@[n].fame == int_at(misc_data@, 0x06d8 + 16 * n + 4),
        simulator_settings_decoded(r.simulator_settings, misc_data@),
        game_settings_decoded(r.game_settings, misc_data@),
        inventions_decoded(r.inventions, misc_data@),
        crate::budget::budget_decoded(r.budget, misc_data@),
{
    let city_attributes = parse_city_attributes(misc_data);
    let simulator_settings = parse_simulator_settings(misc_data);
    let game_settings = parse_game_settings(misc_data);
    let inventions = parse_inventions(misc_data);

    let mut pop = misc_uninterleave_data(3, 0x007c, 240, misc_data);
    let ghost pop_view = pop@;
    let education_eq = pop.pop().unwrap();
    let health_le = pop.pop().unwrap();
    let population_percent = pop.pop().unwrap();
    proof {
        assert(population_percent == pop_view[0] && health_le == pop_view[1] && education_eq
            == pop_view[2]);
        assert forall|j: int| 0 <= j < 20 implies population_percent@[j] == int_at(
            misc_data@,
            0x007c + 12 * j,
        ) && health_le@[j] == int_at(misc_data@, 0x007c + 12 * j + 4) && education_eq@[j]
            == int_at(misc_data@, 0x007c + 12 * j + 8) by {
            assert(pop_view[0]@[j] == int_at(misc_data@, 0x007c + 4 * (j * 3 + 0)));
            assert(pop_view[1]@[j] == int_at(misc_data@, 0x007c + 4 * (j * 3 + 1)));
            assert(pop_view[2]@[j] == int_at(misc_data@, 0x007c + 4 * (j * 3 + 2)));
            assert(4 * (j * 3 + 0) == 12 * j && 4 * (j * 3 + 1) == 12 * j + 4 && 4 * (j * 3 + 2)
                == 12 * j + 8) by (nonlinear_arith);
        }
    }
    let population_graphs = PopulationGraphs { population_percent, health_le, education_eq };

    let mut ind = misc_uninterleave_data(3, 0x016c, 132, misc_data);
    let ghost ind_view = ind@;
    let industrial_demand = ind.pop().unwrap();
    let industrial_tax_rate = ind.pop().unwrap();
    let industrial_ratios = ind.pop().unwrap();
    proof {
        assert(industrial_ratios == ind_view[0] && industrial_tax_rate == ind_view[1]
            && industrial_demand == ind_view[2]);
        assert forall|j: int| 0 <= j < 11 implies industrial_ratios@[j] == int_at(
            misc_data@,
            0x016c + 12 * j,
        ) && industrial_tax_rate@[j] == int_at(misc_data@, 0x016c + 12 * j + 4)
            && industrial_demand@[j] == int_at(misc_data@, 0x016c + 12 * j + 8) by {
            assert(ind_view[0]@[j] == int_at(misc_data@, 0x016c + 4 * (j * 3 + 0)));
            assert(ind_view[1]@[j] == int_at(misc_data@, 0x016c + 4 * (j * 3 + 1)));
            assert(ind_view[2]@[j] == int_at(misc_data@, 0x016c + 4 * (j * 3 + 2)));
            assert(4 * (j * 3 + 0) == 12 * j && 4 * (j * 3 + 1) == 12 * j + 4 && 4 * (j * 3 + 2)
                == 12 * j + 8) by (nonlinear_arith);
        }
    }
    let industry_graphs = IndustryGraphs {
        industrial_ratios,
        industrial_tax_rate,
        industrial_demand,
    };

    let building_count = read_i32_list(misc_data, 0x01f0, 256);
    let neighbor_info = parse_neighbours(misc_data);
    let budget = Budget::from_misc_data(misc_data);

    MiscParams {
        city_attributes,
        simulator_settings,
        game_settings,
        inventions,
        population_graphs,
        industry_graphs,
        building_count,
        neighbor_info,
        budget,
    }
}

} // verus!
