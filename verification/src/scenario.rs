//! Scenario decoding: free-text records tagged by a 4-byte id, the goal
//! record at sequential offsets, and the preview picture with its
//! least-significant-byte-first dimensions.

use vstd::prelude::*;

use crate::errors::Sc2Error;
use crate::sc_util;

verus! {

/// The id carried in the first four bytes of a scenario text record.
pub open spec fn text_id(e: Seq<u8>) -> int {
    sc_util::be32(e[0], e[1], e[2], e[3])
}

/// The body of the last text record carrying `id`, or empty if none does.
pub open spec fn last_text_body(entries: Seq<Seq<u8>>, id: int) -> Seq<u8>
    decreases entries.len(),
{
    if entries.len() == 0 {
        Seq::empty()
    } else if entries.last().len() >= 4 && text_id(entries.last()) == id {
        entries.last().skip(4)
    } else {
        last_text_body(entries.drop_last(), id)
    }
}

/// The ids of well-formed text records that carry neither the short-text
/// nor the long-text id, in file order.
pub open spec fn unknown_ids(entries: Seq<Seq<u8>>) -> Seq<u32>
    decreases entries.len(),
{
    if entries.len() == 0 {
        Seq::empty()
    } else if entries.last().len() >= 4 && text_id(entries.last()) != 0x8000_0000 && text_id(
        entries.last(),
    ) != 0x8100_0000 {
        unknown_ids(entries.drop_last()).push(text_id(entries.last()) as u32)
    } else {
        unknown_ids(entries.drop_last())
    }
}

/// How many text records are too short to carry an id at all.
pub open spec fn short_text_count(entries: Seq<Seq<u8>>) -> int
    decreases entries.len(),
{
    if entries.len() == 0 {
        0
    } else if entries.last().len() < 4 {
        short_text_count(entries.drop_last()) + 1
    } else {
        short_text_count(entries.drop_last())
    }
}

/// Carriage returns replaced by line feeds, byte by byte.
pub open spec fn cr_to_lf(s: Seq<u8>) -> Seq<u8> {
    s.map_values(
        |b: u8|
            if b == 13 {
                10u8
            } else {
                b
            },
    )
}

/// The preview picture width stored least-significant byte first.
pub open spec fn pict_width(p: Seq<u8>) -> int {
    p[4] + 256 * p[5]
}

/// The preview picture height stored least-significant byte first.
pub open spec fn pict_height(p: Seq<u8>) -> int {
    p[6] + 256 * p[7]
}

/// What row `i` contributes to the image: its first `width` bytes when the
/// row is complete and ends in the 255 marker, nothing otherwise.
pub open spec fn pict_row_contrib(data: Seq<u8>, width: int, i: int) -> Seq<u8> {
    if (i + 1) * (width + 1) <= data.len() && data[i * (width + 1) + width] == 255 {
        data.subrange(i * (width + 1), i * (width + 1) + width)
    } else {
        Seq::empty()
    }
}

/// The rows among the first `n` that are malformed or discarded: a row
/// that overruns the picture data or does not end in the 255 marker.
pub open spec fn bad_rows(data: Seq<u8>, width: int, n: int) -> Seq<usize>
    decreases n,
{
    if n <= 0 {
        Seq::empty()
    } else if (n) * (width + 1) <= data.len() && data[(n - 1) * (width + 1) + width] == 255 {
        bad_rows(data, width, n - 1)
    } else {
        bad_rows(data, width, n - 1).push((n - 1) as usize)
    }
}

/// The image assembled from the first `n` rows.
pub open spec fn pict_image(data: Seq<u8>, width: int, n: int) -> Seq<u8>
    decreases n,
{
    if n <= 0 {
        Seq::empty()
    } else {
        pict_image(data, width, n - 1) + pict_row_contrib(data, width, n - 1)
    }
}

/// The scenario goal record, read from sequential offsets starting four
/// bytes into the scenario chunk.
#[derive(Debug, PartialEq, Eq, Structural, Clone, Copy)]
pub struct ScenarioConditions {
    pub disaster_type: u32,
    pub disaster_x_location: u32,
    pub disaster_y_location: u32,
    pub time_limit_months: u32,
    pub city_size_goal: u32,
    pub residential_goal: u32,
    pub commercial_goal: u32,
    pub industrial_goal: u32,
    pub cash_flow_goal_bonds: u32,
    pub land_value_goal: u32,
    pub pollution_limit: u32,
    pub traffic_limit: u32,
    pub crime_limit: u32,
    pub build_item_one: u32,
    pub build_item_two: u32,
    pub item_one_tiles: u32,
    pub item_two_tiles: u32,
}

/// The goal record the scenario chunk bytes `s` describe.
pub open spec fn spec_conditions(s: Seq<u8>) -> ScenarioConditions {
    ScenarioConditions {
        disaster_type: sc_util::be16(s[4], s[5]) as u32,
        disaster_x_location: s[6] as u32,
        disaster_y_location: s[7] as u32,
        time_limit_months: sc_util::be16(s[8], s[9]) as u32,
        city_size_goal: sc_util::be32(s[10], s[11], s[12], s[13]) as u32,
        residential_goal: sc_util::be32(s[14], s[15], s[16], s[17]) as u32,
        commercial_goal: sc_util::be32(s[18], s[19], s[20], s[21]) as u32,
        industrial_goal: sc_util::be32(s[22], s[23], s[24], s[25]) as u32,
        cash_flow_goal_bonds: sc_util::be32(s[26], s[27], s[28], s[29]) as u32,
        land_value_goal: sc_util::be32(s[30], s[31], s[32], s[33]) as u32,
        pollution_limit: sc_util::be32(s[34], s[35], s[36], s[37]) as u32,
        traffic_limit: sc_util::be32(s[38], s[39], s[40], s[41]) as u32,
        crime_limit: sc_util::be32(s[42], s[43], s[44], s[45]) as u32,
        build_item_one: s[46] as u32,
        build_item_two: s[47] as u32,
        item_one_tiles: sc_util::be16(s[48], s[49]) as u32,
        item_two_tiles: sc_util::be16(s[50], s[51]) as u32,
    }
}

/// Everything decoded from the scenario chunks.
#[derive(Debug)]
pub struct ScenarioData {
    /// Body of the short-text record, carriage returns turned into newlines.
    pub scenario_text: String,
    /// Body of the long-text record, carriage returns turned into newlines.
    pub scenario_descriptive_text: String,
    /// Ids of text records of unrecognized kind (tolerated, only logged).
    pub unknown_text_ids: Vec<u32>,
    /// Count of text records too short to carry an id.
    pub short_text_entries: usize,
    pub conditions: ScenarioConditions,
    /// Preview pixels, row-major, discarded rows contributing nothing.
    pub picture: Vec<u8>,
    /// Whether the picture magic was wrong (tolerated, only logged).
    pub bad_picture_magic: bool,
    /// Indexes of malformed or discarded picture rows.
    pub bad_picture_rows: Vec<usize>,
}

/// Replaces carriage returns with line feeds.
fn replace_cr(s: &[u8]) -> (r: Vec<u8>)
    ensures
        r@ == cr_to_lf(s@),
{
    let mut r: Vec<u8> = Vec::new();
    let mut i: usize = 0;
    while i < s.len()
        invariant
            i <= s@.len(),
            r@ == cr_to_lf(s@.subrange(0, i as int)),
        decreases s@.len() - i,
    {
        let b = s[i];
        r.push(if b == 13 {
            10
        } else {
            b
        });
        i = i + 1;
        proof {
            assert(r@ =~= cr_to_lf(s@.subrange(0, i as int)));
        }
    }
    proof {
        assert(s@.subrange(0, s@.len() as int) =~= s@);
    }
    r
}

/// Parses the scenario chunks: the tagged text records, the goal record and
/// the preview picture. Unrecognized text ids, a wrong picture magic and
/// malformed picture rows are logged and tolerated; a goal record or picture
/// header that overruns its chunk aborts the file.
pub fn parse_scenario(texts: &Vec<Vec<u8>>, scen: &Vec<u8>, pict: &Vec<u8>) -> (r: Result<
    ScenarioData,
    Sc2Error,
>)
    ensures
        r is Ok <==> scen@.len() >= 52 && pict@.len() >= 8,
        r is Err ==> r.unwrap_err() == Sc2Error::TruncatedInput,
        r is Ok ==> ({
            let d = r.unwrap();
            &&& d.scenario_text@ == sc_util::utf8_lossy_of(
                cr_to_lf(last_text_body(texts.deep_view(), 0x8000_0000)),
            )
            &&& d.scenario_descriptive_text@ == sc_util::utf8_lossy_of(
                cr_to_lf(last_text_body(texts.deep_view(), 0x8100_0000)),
            )
            &&& d.unknown_text_ids@ == unknown_ids(texts.deep_view())
            &&& d.short_text_entries == short_text_count(texts.deep_view())
            &&& d.conditions == spec_conditions(scen@)
            &&& d.bad_picture_magic == !(pict@[0] == 0x80 && pict@[1] == 0 && pict@[2] == 0
                && pict@[3] == 0)
            &&& d.picture@ == pict_image(pict@.skip(8), pict_width(pict@), pict_height(pict@))
            &&& d.bad_picture_rows@ == bad_rows(pict@.skip(8), pict_width(pict@), pict_height(pict@))
        }),
{
    if scen.len() < 52 || pict.len() < 8 {
        return Err(Sc2Error::TruncatedInput);
    }

    let empty_body: Vec<u8> = Vec::new();
    let mut scenario_text = sc_util::utf8_lossy(empty_body.as_slice());
    let mut scenario_descriptive_text = sc_util::utf8_lossy(empty_body.as_slice());
    let mut unknown_text_ids: Vec<u32> = Vec::new();
    let mut short_text_entries: usize = 0;
    proof {
        assert(texts.deep_view().subrange(0, 0) =~= Seq::<Seq<u8>>::empty());
        assert(cr_to_lf(Seq::<u8>::empty()) =~= Seq::<u8>::empty());
        assert(scenario_text@ == Seq::<u8>::empty().map_values(|b: u8| b as char));
        assert(scenario_text@ =~= Seq::<char>::empty());
    }

    let mut e: usize = 0;
    while e < texts.len()
        invariant
            e <= texts@.len(),
            scenario_text@ == sc_util::utf8_lossy_of(
                cr_to_lf(last_text_body(texts.deep_view().subrange(0, e as int), 0x8000_0000)),
            ),
            scenario_descriptive_text@ == sc_util::utf8_lossy_of(
                cr_to_lf(last_text_body(texts.deep_view().subrange(0, e as int), 0x8100_0000)),
            ),
            unknown_text_ids@ == unknown_ids(texts.deep_view().subrange(0, e as int)),
            short_text_entries == short_text_count(texts.deep_view().subrange(0, e as int)),
            short_text_entries <= e,
        decreases texts@.len() - e,
    {
        let ghost pre = texts.deep_view().subrange(0, e as int);
        let entry = &texts[e];
        proof {
            assert(texts.deep_view().subrange(0, e + 1).drop_last() =~= pre);
            assert(texts.deep_view().subrange(0, e + 1).last() == entry@);
        }
        if entry.len() < 4 {
            short_text_entries = short_text_entries + 1;
        } else {
            let chunk = [entry[0], entry[1], entry[2], entry[3]];
            let string_id = sc_util::parse_uint32(&chunk);
            let body = replace_cr(slice_suffix(entry.as_slice(), 4));
            if string_id == 0x8000_0000 {
                scenario_text = sc_util::utf8_lossy(body.as_slice());
            } else if string_id == 0x8100_0000 {
                scenario_descriptive_text = sc_util::utf8_lossy(body.as_slice());
            } else {
                unknown_text_ids.push(string_id);
            }
        }
        e = e + 1;
    }
    proof {
        assert(texts.deep_view().subrange(0, texts.deep_view().len() as int)
            =~= texts.deep_view());
    }

    let conditions = parse_conditions(scen.as_slice());

    let bad_picture_magic = !(pict[0] == 0x80 && pict[1] == 0 && pict[2] == 0 && pict[3] == 0);
    let row_length = pict[4] as usize + 256 * (pict[5] as usize);
    let row_count = pict[6] as usize + 256 * (pict[7] as usize);
    let ghost picture_data = pict@.skip(8);

    let mut picture: Vec<u8> = Vec::new();
    let mut bad_picture_rows: Vec<usize> = Vec::new();
    let mut row_idx: usize = 0;
    while row_idx < row_count
        invariant
            row_idx <= row_count,
            row_count <= 0xffff,
            row_length <= 0xffff,
            row_length == pict_width(pict@),
            picture_data == pict@.skip(8),
            pict@.len() >= 8,
            picture@ == pict_image(picture_data, row_length as int, row_idx as int),
            bad_picture_rows@ == bad_rows(picture_data, row_length as int, row_idx as int),
            row_count == pict_height(pict@),
        decreases row_count - row_idx,
    {
        proof {
            assert(row_idx * (row_length + 1) + row_length + 1 <= 0xffff_0000) by (nonlinear_arith)
                requires
                    row_idx < row_count,
                    row_count <= 0xffff,
                    row_length <= 0xffff,
            ;
        }
        let row_start = row_idx * (row_length + 1);
        let ghost pre_picture = picture@;
        if row_start + row_length + 1 <= pict.len() - 8 && pict[8 + row_start + row_length] == 255 {
            let mut x: usize = 0;
            while x < row_length
                invariant
                    x <= row_length,
                    row_start + row_length + 1 <= pict@.len() - 8,
                    pict@.len() <= usize::MAX,
                    picture@ == pre_picture + pict@.subrange(
                        8 + row_start,
                        8 + row_start + x as int,
                    ),
                decreases row_length - x,
            {
                picture.push(pict[8 + row_start + x]);
                x = x + 1;
                proof {
                    assert(picture@ =~= pre_picture + pict@.subrange(
                        8 + row_start,
                        8 + row_start + x as int,
                    ));
                }
            }
            proof {
                assert((row_idx as int + 1) * (row_length as int + 1) <= picture_data.len()
                    && picture_data[row_idx as int * (row_length as int + 1) + row_length as int]
                    == 255) by {
                    assert((row_idx as int + 1) * (row_length as int + 1) == row_start
                        + row_length + 1) by (nonlinear_arith)
                        requires
                            row_start == row_idx * (row_length + 1),
                    ;
                }
                assert(pict_row_contrib(picture_data, row_length as int, row_idx as int)
                    =~= pict@.subrange(8 + row_start, 8 + row_start + row_length as int));
            }
        } else {
            bad_picture_rows.push(row_idx);
            proof {
                assert(!((row_idx as int + 1) * (row_length as int + 1) <= picture_data.len()
                    && picture_data[(row_idx as int) * (row_length as int + 1)
                    + row_length as int] == 255)) by {
                    assert((row_idx as int + 1) * (row_length as int + 1) == row_start
                        + row_length + 1) by (nonlinear_arith)
                        requires
                            row_start == row_idx * (row_length + 1),
                    ;
                }
                assert(pict_row_contrib(picture_data, row_length as int, row_idx as int)
                    =~= Seq::<u8>::empty());
                assert(picture@ =~= pre_picture + pict_row_contrib(
                    picture_data,
                    row_length as int,
                    row_idx as int,
                ));
            }
        }
        row_idx = row_idx + 1;
        proof {
            assert(picture@ =~= pict_image(picture_data, row_length as int, row_idx as int));
            assert(bad_picture_rows@ =~= bad_rows(picture_data, row_length as int, row_idx as int));
        }
    }

    Ok(
        ScenarioData {
            scenario_text,
            scenario_descriptive_text,
            unknown_text_ids,
            short_text_entries,
            conditions,
            picture,
            bad_picture_magic,
            bad_picture_rows,
        },
    )
}

/// Borrows the suffix of a slice from `from` onward.
fn slice_suffix(s: &[u8], from: usize) -> (r: &[u8])
    requires
        from <= s@.len(),
    ensures
        r@ == s@.skip(from as int),
{
    let r = vstd::slice::slice_subrange(s, from, s.len());
    proof {
        assert(s@.subrange(from as int, s@.len() as int) =~= s@.skip(from as int));
    }
    r
}

/// Decodes the goal record at sequential offsets from byte 4 on.
fn parse_conditions(s: &[u8]) -> (r: ScenarioConditions)
    requires
        s@.len() >= 52,
    ensures
        r == spec_conditions(s@),
{
    ScenarioConditions {
        disaster_type: sc_util::bytes_to_uint(vstd::slice::slice_subrange(s, 4, 6)),
        disaster_x_location: s[6] as u32,
        disaster_y_location: s[7] as u32,
        time_limit_months: sc_util::bytes_to_uint(vstd::slice::slice_subrange(s, 8, 10)),
        city_size_goal: sc_util::bytes_to_uint(vstd::slice::slice_subrange(s, 10, 14)),
        residential_goal: sc_util::bytes_to_uint(vstd::slice::slice_subrange(s, 14, 18)),
        commercial_goal: sc_util::bytes_to_uint(vstd::slice::slice_subrange(s, 18, 22)),
        industrial_goal: sc_util::bytes_to_uint(vstd::slice::slice_subrange(s, 22, 26)),
        cash_flow_goal_bonds: sc_util::bytes_to_uint(vstd::slice::slice_subrange(s, 26, 30)),
        land_value_goal: sc_util::bytes_to_uint(vstd::slice::slice_subrange(s, 30, 34)),
        pollution_limit: sc_util::bytes_to_uint(vstd::slice::slice_subrange(s, 34, 38)),
        traffic_limit: sc_util::bytes_to_uint(vstd::slice::slice_subrange(s, 38, 42)),
        crime_limit: sc_util::bytes_to_uint(vstd::slice::slice_subrange(s, 42, 46)),
        build_item_one: s[46] as u32,
        build_item_two: s[47] as u32,
        item_one_tiles: sc_util::bytes_to_uint(vstd::slice::slice_subrange(s, 48, 50)),
        item_two_tiles: sc_util::bytes_to_uint(vstd::slice::slice_subrange(s, 50, 52)),
    }
}

} // verus!
