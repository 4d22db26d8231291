//! The decoded city aggregate: the tile grid, the placed buildings, the
//! coarse statistic grids, the parameter block, labels, history graphs and
//! the optional scenario, assembled from one save file.

use vstd::prelude::*;

use crate::bit_flags::BitFlags;
use crate::bit_flags::spec_bit_flags;
use crate::budget::Budget;
use crate::building::Building;
use crate::buildings::BuildingRegistry;
use crate::errors::Sc2Error;
use crate::footprint;
use crate::graph::Graph;
use crate::graph::int_at;
use crate::minimap::Minimap;
use crate::misc;
use crate::sc2_iff_parse as sc2p;
use crate::sc_util;
use crate::scenario;
use crate::thing::Thing;
use crate::tile::Tile;

verus! {

/// One tile holds exactly what the parallel planes say at its row-major
/// index: altitude fields sliced most-significant-bit-first out of the
/// 16-bit altitude word, the terrain id, the zone corner bits and zone type,
/// the underground id, the sign pointer and the status flags.
pub open spec fn tile_decoded(
    t: Tile,
    idx: int,
    altm: Seq<u8>,
    xter: Seq<u8>,
    xzon: Seq<u8>,
    xund: Seq<u8>,
    xtxt: Seq<u8>,
    xbit: Seq<u8>,
) -> bool {
    let v = sc_util::be16(altm[2 * idx], altm[2 * idx + 1]) as nat;
    let altm_bits = sc_util::zero_pad(sc_util::bin_digits(v), 16);
    let zone_bits = sc_util::zero_pad(sc_util::bin_digits(xzon[idx] as nat), 8);
    &&& t.coordinates == ((idx / 128) as usize, (idx % 128) as usize)
    &&& t.altitude_tunnel == sc_util::bits_value(altm_bits.subrange(0, 8))
    &&& t.is_water == (sc_util::bits_value(altm_bits.subrange(8, 9)) > 0)
    &&& t.altitude_unknown == sc_util::bits_value(altm_bits.subrange(9, 11))
    &&& t.altitude == sc_util::bits_value(altm_bits.subrange(11, 16))
    &&& t.terrain == xter[idx]
    &&& t.zone_corners@ == zone_bits.subrange(0, 4)
    &&& t.zone == sc_util::bits_value(zone_bits.subrange(4, 8))
    &&& t.underground == xund[idx]
    &&& t.text_pointer == xtxt[idx] as i32
    &&& t.bit_flags == Some(spec_bit_flags(xbit[idx]))
}

/// Builds one coarse grid from its plane: cell `i` holds byte `i`.
fn minimap_from_plane(name: &str, size: usize, plane: &Vec<u8>) -> (r: Minimap)
    requires
        size == 32 || size == 64,
        plane@.len() >= size * size,
    ensures
        r.wf(),
        r.size == size,
        r.name@ == name@,
        r.data@ == plane@.subrange(0, (size * size) as int),
{
    let mut m = Minimap::new(String::from_str(name), size);
    let total = size * size;
    let mut i: usize = 0;
    while i < total
        invariant
            i <= total,
            total == size * size,
            size == 32 || size == 64,
            plane@.len() >= total,
            m.wf(),
            m.size == size,
            m.name@ == name@,
            m.data@.len() == total,
            forall|k: int| 0 <= k < i ==> m.data@[k] == plane@[k],
        decreases total - i,
    {
        proof {
            assert(((i / size) * size + i % size) == i as int) by (nonlinear_arith)
                requires
                    size >= 1,
                    i >= 0,
            ;
            assert(i / size < size) by (nonlinear_arith)
                requires
                    size >= 1,
                    0 <= i < size * size,
            ;
        }
        m.set_item((i / size, i % size), plane[i]);
        i = i + 1;
    }
    proof {
        assert(m.data@ =~= plane@.subrange(0, total as int));
    }
    m
}

/// Decodes every tile of the 128 by 128 grid from the parallel planes.
fn create_tilelist(
    altm: &Vec<u8>,
    xter: &Vec<u8>,
    xzon: &Vec<u8>,
    xund: &Vec<u8>,
    xtxt: &Vec<u8>,
    xbit: &Vec<u8>,
    attachments: &Vec<Option<usize>>,
) -> (r: Vec<Tile>)
    requires
        altm@.len() == 32768,
        xter@.len() == 16384,
        xzon@.len() == 16384,
        xund@.len() == 16384,
        xtxt@.len() == 16384,
        xbit@.len() == 16384,
        attachments@.len() == 16384,
    ensures
        r@.len() == 16384,
        forall|idx: int|
            0 <= idx < 16384 ==> tile_decoded(
                #[trigger] r@[idx],
                idx,
                altm@,
                xter@,
                xzon@,
                xund@,
                xtxt@,
                xbit@,
            ),
        forall|idx: int| 0 <= idx < 16384 ==> (#[trigger] r@[idx]).building == attachments@[idx],
{
    let mut tilelist: Vec<Tile> = Vec::new();
    let mut idx: usize = 0;
    while idx < 16384
        invariant
            idx <= 16384,
            altm@.len() == 32768,
            xter@.len() == 16384,
            xzon@.len() == 16384,
            xund@.len() == 16384,
            xtxt@.len() == 16384,
            xbit@.len() == 16384,
            attachments@.len() == 16384,
            tilelist@.len() == idx,
            forall|m: int|
                0 <= m < idx ==> tile_decoded(
                    #[trigger] tilelist@[m],
                    m,
                    altm@,
                    xter@,
                    xzon@,
                    xund@,
                    xtxt@,
                    xbit@,
                ),
            forall|m: int|
                0 <= m < idx ==> (#[trigger] tilelist@[m]).building == attachments@[m],
        decreases 16384 - idx,
    {
        let mut tile = Tile::new();
        tile.set_coordinates((idx / 128, idx % 128));

        let altm_chunk = [altm[2 * idx], altm[2 * idx + 1]];
        let v = sc_util::parse_uint16(&altm_chunk);
        proof {
            sc_util::lemma_two_pow_16();
            sc_util::lemma_padded_well_formed(v as nat, 16);
        }
        let altm_bits = sc_util::int_to_bitstring(v as u32, 16);
        tile.set_altitude_tunnel(
            sc_util::parse_bitstring(altm_bits.as_str().substring_char(0, 8)),
        );
        tile.set_is_water(sc_util::parse_bitstring(altm_bits.as_str().substring_char(8, 9)) > 0);
        tile.set_altitude_unknown(
            sc_util::parse_bitstring(altm_bits.as_str().substring_char(9, 11)),
        );
        tile.set_altitude(sc_util::parse_bitstring(altm_bits.as_str().substring_char(11, 16)));
        tile.set_terrain(xter[idx]);

        let zon = xzon[idx];
        proof {
            sc_util::lemma_padded_well_formed(zon as nat, 8);
            assert((zon as nat) < sc_util::two_pow(8));
        }
        let zone_bits = sc_util::int_to_bitstring(zon as u32, 8);
        tile.set_zone_corners(String::from_str(zone_bits.as_str().substring_char(0, 4)));
        tile.set_zone(sc_util::parse_bitstring(zone_bits.as_str().substring_char(4, 8)));
        tile.set_underground(xund[idx]);
        tile.set_text_pointer(xtxt[idx]);
        tile.set_bit_flags(BitFlags::from_byte(xbit[idx]));
        match attachments[idx] {
            Some(h) => {
                tile.set_building(h);
            },
            None => {},
        }

        tilelist.push(tile);
        idx = idx + 1;
    }
    tilelist
}

/// The labels decoded from the first `n` 25-byte records: a record whose
/// length byte is zero contributes nothing, any other contributes its text
/// bytes (at most 24) decoded as characters.
pub open spec fn labels_of(x: Seq<u8>, n: int) -> Seq<Seq<char>>
    decreases n,
{
    if n <= 0 {
        Seq::empty()
    } else {
        let prev = labels_of(x, n - 1);
        let len = x[(n - 1) * 25] as int;
        if len == 0 {
            prev
        } else {
            prev.push(
                sc_util::utf8_lossy_of(
                    x.subrange(
                        (n - 1) * 25 + 1,
                        (n - 1) * 25 + 1 + (if len <= 24 {
                            len
                        } else {
                            24
                        }),
                    ),
                ),
            )
        }
    }
}

/// Parses the label records: 25 bytes each, a length byte then the text.
pub fn parse_labels(xlab_segment: &Vec<u8>) -> (r: Vec<String>)
    requires
        xlab_segment@.len() % 25 == 0,
    ensures
        r.deep_view() == labels_of(xlab_segment@, xlab_segment@.len() as int / 25),
{
    let mut labels: Vec<String> = Vec::new();
    let count = xlab_segment.len() / 25;
    let mut n: usize = 0;
    while n < count
        invariant
            n <= count,
            count == xlab_segment@.len() as int / 25,
            xlab_segment@.len() % 25 == 0,
            xlab_segment@.len() <= usize::MAX,
            labels.deep_view() == labels_of(xlab_segment@, n as int),
        decreases count - n,
    {
        proof {
            assert(n * 25 + 25 <= xlab_segment@.len()) by (nonlinear_arith)
                requires
                    n < count,
                    count == xlab_segment@.len() as int / 25,
                    xlab_segment@.len() % 25 == 0,
            ;
        }
        let base = n * 25;
        let label_len = xlab_segment[base] as usize;
        if label_len > 0 {
            let take = if label_len <= 24 {
                label_len
            } else {
                24
            };
            let body = sc2p::copy_range(xlab_segment.as_slice(), base + 1, base + 1 + take);
            let ghost pre = labels.deep_view();
            labels.push(sc_util::utf8_lossy(body.as_slice()));
            proof {
                assert(labels.deep_view() =~= pre.push(
                    sc_util::utf8_lossy_of(
                        xlab_segment@.subrange(base + 1, base + 1 + take as int),
                    ),
                ));
            }
        }
        n = n + 1;
    }
    labels
}

/// Splits the raw micro-simulation state into its 8-byte records.
pub fn parse_microsim(xmic_segment: &Vec<u8>) -> (r: Vec<Vec<u8>>)
    requires
        xmic_segment@.len() % 8 == 0,
    ensures
        r.deep_view().len() == xmic_segment@.len() as int / 8,
        forall|k: int|
            0 <= k < r.deep_view().len() ==> #[trigger] r.deep_view()[k] == xmic_segment@.subrange(
                8 * k,
                8 * k + 8,
            ),
{
    let mut records: Vec<Vec<u8>> = Vec::new();
    let count = xmic_segment.len() / 8;
    let mut n: usize = 0;
    while n < count
        invariant
            n <= count,
            count == xmic_segment@.len() as int / 8,
            xmic_segment@.len() % 8 == 0,
            xmic_segment@.len() <= usize::MAX,
            records.deep_view().len() == n,
            forall|k: int|
                0 <= k < n ==> #[trigger] records.deep_view()[k] == xmic_segment@.subrange(
                    8 * k,
                    8 * k + 8,
                ),
        decreases count - n,
    {
        proof {
            assert(8 * n + 8 <= xmic_segment@.len()) by (nonlinear_arith)
                requires
                    n < count,
                    count == xmic_segment@.len() as int / 8,
                    xmic_segment@.len() % 8 == 0,
            ;
        }
        let ghost pre = records.deep_view();
        let rec = sc2p::copy_range(xmic_segment.as_slice(), 8 * n, 8 * n + 8);
        records.push(rec);
        n = n + 1;
        proof {
            assert(records.deep_view() =~~= pre.push(
                xmic_segment@.subrange(8 * (n - 1), 8 * (n - 1) + 8),
            ));
        }
    }
    records
}

/// Parses the 12-byte thing records of the XTHG segment.
pub fn parse_things(xthg_segments: &Vec<u8>) -> (r: Vec<Thing>)
    requires
        xthg_segments@.len() % 12 == 0,
    ensures
        r@.len() == xthg_segments@.len() as int / 12,
        forall|k: int|
            0 <= k < r@.len() ==> {
                let b = 12 * k;
                &&& (#[trigger] r@[k]).thing_id == xthg_segments@[b]
                &&& r@[k].rotation_1 == xthg_segments@[b + 1]
                &&& r@[k].rotation_2 == xthg_segments@[b + 2]
                &&& r@[k].x == xthg_segments@[b + 3]
                &&& r@[k].y == xthg_segments@[b + 4]
                &&& r@[k].data@ == xthg_segments@.subrange(b + 5, b + 12)
            },
{
    let mut things: Vec<Thing> = Vec::new();
    let count = xthg_segments.len() / 12;
    let mut n: usize = 0;
    while n < count
        invariant
            n <= count,
            count == xthg_segments@.len() as int / 12,
            xthg_segments@.len() % 12 == 0,
            xthg_segments@.len() <= usize::MAX,
            things@.len() == n,
            forall|k: int|
                0 <= k < n ==> {
                    let b = 12 * k;
                    &&& (#[trigger] things@[k]).thing_id == xthg_segments@[b]
                    &&& things@[k].rotation_1 == xthg_segments@[b + 1]
                    &&& things@[k].rotation_2 == xthg_segments@[b + 2]
                    &&& things@[k].x == xthg_segments@[b + 3]
                    &&& things@[k].y == xthg_segments@[b + 4]
                    &&& things@[k].data@ == xthg_segments@.subrange(b + 5, b + 12)
                },
        decreases count - n,
    {
        proof {
            assert(n * 12 + 12 <= xthg_segments@.len()) by (nonlinear_arith)
                requires
                    n < count,
                    count == xthg_segments@.len() as int / 12,
                    xthg_segments@.len() % 12 == 0,
            ;
            assert(12 * n + 12 <= xthg_segments@.len());
        }
        let b = 12 * n;
        let chunk = [xthg_segments[b], xthg_segments[b + 1], xthg_segments[b + 2], xthg_segments[b
            + 3], xthg_segments[b + 4], xthg_segments[b + 5], xthg_segments[b + 6], xthg_segments[b
            + 7], xthg_segments[b + 8], xthg_segments[b + 9], xthg_segments[b + 10], xthg_segments[b
            + 11]];
        let thing = Thing::parse_thing(&chunk);
        proof {
            assert(chunk@.subrange(5, 12) =~= xthg_segments@.subrange(b + 5, b + 12));
        }
        things.push(thing);
        n = n + 1;
    }
    things
}

/// Parses the sixteen 208-byte history graphs of the XGRP segment.
pub fn parse_graphs(xgrp_segment: &Vec<u8>) -> (r: Vec<Graph>)
    requires
        xgrp_segment@.len() >= 3328,
    ensures
        r@.len() == 16,
        forall|g: int, k: int|
            0 <= g < 16 && 0 <= k < 12 ==> (#[trigger] r@[g].one_year@[k]) == int_at(
                xgrp_segment@,
                208 * g + 4 * k,
            ),
        forall|g: int, k: int|
            0 <= g < 16 && 0 <= k < 20 ==> (#[trigger] r@[g].ten_years@[k]) == int_at(
                xgrp_segment@,
                208 * g + 48 + 4 * k,
            ),
        forall|g: int, k: int|
            0 <= g < 16 && 0 <= k < 20 ==> (#[trigger] r@[g].hundred_years@[k]) == int_at(
                xgrp_segment@,
                208 * g + 128 + 4 * k,
            ),
        forall|g: int|
            0 <= g < 16 ==> (#[trigger] r@[g].one_year@).len() == 12 && r@[g].ten_years@.len() == 20
                && r@[g].hundred_years@.len() == 20,
{
    let mut graphs: Vec<Graph> = Vec::new();
    let mut g: usize = 0;
    while g < 16
        invariant
            g <= 16,
            xgrp_segment@.len() >= 3328,
            graphs@.len() == g,
            forall|m: int, k: int|
                0 <= m < g && 0 <= k < 12 ==> (#[trigger] graphs@[m].one_year@[k]) == int_at(
                    xgrp_segment@,
                    208 * m + 4 * k,
                ),
            forall|m: int, k: int|
                0 <= m < g && 0 <= k < 20 ==> (#[trigger] graphs@[m].ten_years@[k]) == int_at(
                    xgrp_segment@,
                    208 * m + 48 + 4 * k,
                ),
            forall|m: int, k: int|
                0 <= m < g && 0 <= k < 20 ==> (#[trigger] graphs@[m].hundred_years@[k]) == int_at(
                    xgrp_segment@,
                    208 * m + 128 + 4 * k,
                ),
            forall|m: int|
                0 <= m < g ==> (#[trigger] graphs@[m].one_year@).len() == 12
                    && graphs@[m].ten_years@.len() == 20 && graphs@[m].hundred_years@.len() == 20,
        decreases 16 - g,
    {
        let start = 208 * g;
        let segment = sc2p::copy_range(xgrp_segment.as_slice(), start, start + 208);
        let graph = Graph::parse_graph(segment.as_slice());
        proof {
            assert forall|k: int| 0 <= k < 12 implies graph.one_year@[k] == int_at(
                xgrp_segment@,
                208 * (g as int) + 4 * k,
            ) by {
                assert(graph.one_year@[k] == int_at(segment@, 4 * k));
                assert(segment@[4 * k] == xgrp_segment@[208 * (g as int) + 4 * k]);
                assert(segment@[4 * k + 1] == xgrp_segment@[208 * (g as int) + 4 * k + 1]);
                assert(segment@[4 * k + 2] == xgrp_segment@[208 * (g as int) + 4 * k + 2]);
                assert(segment@[4 * k + 3] == xgrp_segment@[208 * (g as int) + 4 * k + 3]);
            }
            assert forall|k: int| 0 <= k < 20 implies graph.ten_years@[k] == int_at(
                xgrp_segment@,
                208 * (g as int) + 48 + 4 * k,
            ) by {
                assert(graph.ten_years@[k] == int_at(segment@, 48 + 4 * k));
                assert(segment@[48 + 4 * k] == xgrp_segment@[208 * (g as int) + 48 + 4 * k]);
                assert(segment@[48 + 4 * k + 1] == xgrp_segment@[208 * (g as int) + 48 + 4 * k
                    + 1]);
                assert(segment@[48 + 4 * k + 2] == xgrp_segment@[208 * (g as int) + 48 + 4 * k
                    + 2]);
                assert(segment@[48 + 4 * k + 3] == xgrp_segment@[208 * (g as int) + 48 + 4 * k
                    + 3]);
            }
            assert forall|k: int| 0 <= k < 20 implies graph.hundred_years@[k] == int_at(
                xgrp_segment@,
                208 * (g as int) + 128 + 4 * k,
            ) by {
                assert(graph.hundred_years@[k] == int_at(segment@, 128 + 4 * k));
                assert(segment@[128 + 4 * k] == xgrp_segment@[208 * (g as int) + 128 + 4 * k]);
                assert(segment@[128 + 4 * k + 1] == xgrp_segment@[208 * (g as int) + 128 + 4 * k
                    + 1]);
                assert(segment@[128 + 4 * k + 2] == xgrp_segment@[208 * (g as int) + 128 + 4 * k
                    + 2]);
                assert(segment@[128 + 4 * k + 3] == xgrp_segment@[208 * (g as int) + 128 + 4 * k
                    + 3]);
            }
        }
        graphs.push(graph);
        g = g + 1;
    }
    graphs
}

/// The file name with its last dot-separated segment removed; empty when
/// the name has no dot at all.
pub open spec fn file_stem(f: Seq<char>) -> Seq<char>
    decreases f.len(),
{
    if f.len() == 0 {
        Seq::empty()
    } else if f.last() == '.' {
        f.drop_last()
    } else {
        file_stem(f.drop_last())
    }
}

/// The city's display name: the cleaned CNAM text, or, when that is empty,
/// the uppercased file stem; in both cases capped at 31 characters.
pub open spec fn spec_city_name(cnam: Seq<u8>, filename: Seq<char>) -> Seq<char> {
    let cleaned = sc2p::clean_name(cnam);
    let base = if cleaned.len() == 0 {
        sc_util::upper_of(file_stem(filename))
    } else {
        cleaned
    };
    if base.len() <= 31 {
        base
    } else {
        base.subrange(0, 31)
    }
}

proof fn lemma_file_stem_at(f: Seq<char>, p: int)
    requires
        0 <= p < f.len(),
        f[p] == '.',
        forall|m: int| p < m < f.len() ==> f[m] != '.',
    ensures
        file_stem(f) == f.subrange(0, p),
    decreases f.len(),
{
    if p == f.len() - 1 {
        assert(f.drop_last() =~= f.subrange(0, p));
    } else {
        assert(f.last() != '.');
        lemma_file_stem_at(f.drop_last(), p);
        assert(f.drop_last().subrange(0, p) =~= f.subrange(0, p));
    }
}

proof fn lemma_file_stem_none(f: Seq<char>)
    requires
        forall|m: int| 0 <= m < f.len() ==> f[m] != '.',
    ensures
        file_stem(f) == Seq::<char>::empty(),
    decreases f.len(),
{
    if f.len() > 0 {
        lemma_file_stem_none(f.drop_last());
    }
}

/// Names the city from its CNAM chunk, falling back to the uppercased file
/// stem, capped at 31 characters as the original game does.
pub fn name_city(cnam: &Vec<u8>, original_filename: &str) -> (r: String)
    ensures
        r@ == spec_city_name(cnam@, original_filename@),
{
    let cleaned = sc2p::clean_city_name(cnam.as_slice());
    let base: String = if cleaned.unicode_len() == 0 {
        let flen = original_filename.unicode_len();
        let mut dot: usize = flen;
        let mut i: usize = flen;
        while dot == flen && i > 0
            invariant
                i <= flen,
                dot <= flen,
                flen == original_filename@.len(),
                dot == flen ==> (forall|m: int| i <= m < flen ==> original_filename@[m] != '.'),
                dot < flen ==> original_filename@[dot as int] == '.' && (forall|m: int|
                    dot < m < flen ==> original_filename@[m] != '.'),
            decreases i,
        {
            i = i - 1;
            if original_filename.get_char(i) == '.' {
                dot = i;
            }
        }
        let stem: &str = if dot == flen {
            proof {
                lemma_file_stem_none(original_filename@);
                reveal_strlit("");
            }
            ""
        } else {
            proof {
                lemma_file_stem_at(original_filename@, dot as int);
            }
            original_filename.substring_char(0, dot)
        };
        proof {
            assert(stem@ =~= file_stem(original_filename@));
        }
        sc_util::to_uppercase(stem)
    } else {
        cleaned
    };

    proof {
        let cleaned_spec = sc2p::clean_name(cnam@);
        assert(base@ == (if cleaned_spec.len() == 0 {
            sc_util::upper_of(file_stem(original_filename@))
        } else {
            cleaned_spec
        }));
    }
    let blen = base.unicode_len();
    if blen <= 31 {
        base
    } else {
        let mut capped = String::new();
        let mut i: usize = 0;
        while i < 31
            invariant
                i <= 31,
                31 < blen == base@.len(),
                capped@ == base@.subrange(0, i as int),
            decreases 31 - i,
        {
            sc_util::push_char(&mut capped, base.as_str().get_char(i));
            i = i + 1;
            proof {
                assert(capped@ =~= base@.subrange(0, i as int));
            }
        }
        capped
    }
}


/// The chunk sequence of a city save file.
pub open spec fn city_chunks(s: Seq<u8>) -> Seq<(int, Seq<u8>)> {
    sc2p::parse_chunks(sc2p::normalized(s), 12, sc2p::normalized(s).len() - 12).unwrap()
}

/// A compressed chunk's bytes after run-length decoding.
pub open spec fn plane(s: Seq<u8>, tag: u32) -> Seq<u8> {
    sc2p::rle_decode(sc2p::last_payload(city_chunks(s), tag as int, Seq::empty()))
}

/// An uncompressed chunk's raw bytes.
pub open spec fn raw_chunk(s: Seq<u8>, tag: u32) -> Seq<u8> {
    sc2p::last_payload(city_chunks(s), tag as int, Seq::empty())
}

/// The raw city-name chunk, defaulting to the Mac resource-fork name.
pub open spec fn raw_cnam(s: Seq<u8>) -> Seq<u8> {
    sc2p::last_payload(city_chunks(s), sc2p::TAG_CNAM as int, sc2p::cnam_default(s))
}

/// The payloads of the TEXT chunks, in file order.
pub open spec fn scenario_texts(s: Seq<u8>) -> Seq<Seq<u8>> {
    sc2p::text_payloads(city_chunks(s))
}

/// The city's rotation, read from the Compass entry of the parameter block.
pub open spec fn spec_compass(s: Seq<u8>) -> int {
    int_at(plane(s, sc2p::TAG_MISC), 8)
}

/// Whether the save carries a scenario: all three scenario chunks present
/// and non-empty.
pub open spec fn scenario_present(s: Seq<u8>) -> bool {
    scenario_texts(s).len() > 0 && raw_chunk(s, sc2p::TAG_SCEN).len() > 0 && raw_chunk(
        s,
        sc2p::TAG_PICT,
    ).len() > 0
}

/// Every decompressed region has the size or shape its decoder demands, and
/// the rotation is one of the four the game knows.
pub open spec fn planes_ok(s: Seq<u8>) -> bool {
    &&& raw_cnam(s).len() == 32
    &&& raw_chunk(s, sc2p::TAG_ALTM).len() == 32768
    &&& plane(s, sc2p::TAG_MISC).len() == 4800
    &&& plane(s, sc2p::TAG_XTER).len() == 16384
    &&& plane(s, sc2p::TAG_XBLD).len() == 16384
    &&& plane(s, sc2p::TAG_XZON).len() == 16384
    &&& plane(s, sc2p::TAG_XUND).len() == 16384
    &&& plane(s, sc2p::TAG_XTXT).len() == 16384
    &&& plane(s, sc2p::TAG_XBIT).len() == 16384
    &&& plane(s, sc2p::TAG_XTRF).len() >= 4096
    &&& plane(s, sc2p::TAG_XPLT).len() >= 4096
    &&& plane(s, sc2p::TAG_XVAL).len() >= 4096
    &&& plane(s, sc2p::TAG_XCRM).len() >= 4096
    &&& plane(s, sc2p::TAG_XPLC).len() >= 1024
    &&& plane(s, sc2p::TAG_XFIR).len() >= 1024
    &&& plane(s, sc2p::TAG_XPOP).len() >= 1024
    &&& plane(s, sc2p::TAG_XROG).len() >= 1024
    &&& plane(s, sc2p::TAG_XLAB).len() % 25 == 0
    &&& plane(s, sc2p::TAG_XMIC).len() % 8 == 0
    &&& plane(s, sc2p::TAG_XTHG).len() % 12 == 0
    &&& plane(s, sc2p::TAG_XGRP).len() >= 3328
    &&& 0 <= spec_compass(s) < 4
}

/// The whole file decodes: the container parses, every region has its
/// expected size, every footprint origin id is known, and the scenario
/// chunks (when present) are long enough.
pub open spec fn city_file_ok(s: Seq<u8>, reg: BuildingRegistry) -> bool {
    &&& sc2p::container_ok(s, sc2p::FileKind::CitySave)
    &&& planes_ok(s)
    &&& !footprint::has_unknown_origin(
        plane(s, sc2p::TAG_XBLD),
        plane(s, sc2p::TAG_XZON),
        spec_compass(s),
        reg,
    )
    &&& (scenario_present(s) ==> raw_chunk(s, sc2p::TAG_SCEN).len() >= 52 && raw_chunk(
        s,
        sc2p::TAG_PICT,
    ).len() >= 8)
}

/// All of one city's information: tiles, placed buildings, coarse statistic
/// grids, the parameter block, labels, micro-simulation records, things,
/// history graphs and the optional scenario.
#[derive(Debug)]
pub struct City {
    pub city_name: String,
    pub labels: Vec<String>,
    pub microsim_state: Vec<Vec<u8>>,
    /// The 128 by 128 tiles, row-major.
    pub tilelist: Vec<Tile>,
    /// Every building instance; tiles and the collections refer to it by index.
    pub building_arena: Vec<Building>,
    /// Non-network footprint origins, keyed by origin tile.
    pub buildings: Vec<((usize, usize), usize)>,
    /// Network pieces, keyed by each tile they were recorded on.
    pub networks: Vec<((usize, usize), usize)>,
    /// Loose groundcover, keyed by its tile.
    pub groundcover: Vec<((usize, usize), usize)>,
    /// Footprint tiles logged as holes.
    pub holes: Vec<(usize, usize)>,
    pub things: Vec<Thing>,
    pub city_size: usize,
    /// The sixteen history graphs, in window order.
    pub graphs: Vec<Graph>,
    pub city_attributes: misc::CityAttributes,
    pub budget: Option<Budget>,
    pub neighbor_info: Vec<misc::Neighbour>,
    pub building_count: Vec<i32>,
    pub game_settings: misc::GameSettings,
    pub inventions: misc::Inventions,
    pub population_graphs: misc::PopulationGraphs,
    pub industry_graphs: misc::IndustryGraphs,
    pub simulator_settings: misc::SimulatorSettings,
    pub traffic: Minimap,
    pub pollution: Minimap,
    pub value: Minimap,
    pub crime: Minimap,
    pub police: Minimap,
    pub fire: Minimap,
    pub density: Minimap,
    pub growth: Minimap,
    pub is_scenario: bool,
    pub scenario_text: String,
    pub scenario_descriptive_text: String,
    pub scenario_condition: Option<scenario::ScenarioConditions>,
    pub scenario_pict: Vec<u8>,
    /// Ids of scenario text records of unrecognized kind.
    pub scenario_unknown_text_ids: Vec<u32>,
    /// Count of scenario text records too short to carry an id.
    pub scenario_short_texts: usize,
    /// Whether the scenario picture magic was wrong.
    pub scenario_bad_picture_magic: bool,
    /// Indexes of malformed or discarded scenario picture rows.
    pub scenario_bad_picture_rows: Vec<usize>,
    pub original_filename: String,
}

/// The per-tile building handles of a city, row-major.
pub open spec fn city_attachments(c: City) -> Seq<Option<usize>> {
    Seq::new(16384, |i: int| c.tilelist@[i].building)
}

impl City {
    /// Populates a city from the raw bytes of a save file, consulting the
    /// caller's building lookup for footprint sizes and classifications.
    #[verifier::rlimit(100)]
    pub fn create_city_from_file(
        raw_sc2_file: &[u8],
        original_filename: &str,
        registry: &BuildingRegistry,
    ) -> (r: Result<City, Sc2Error>)
        requires
            registry.wf(),
        ensures
            r is Ok <==> city_file_ok(raw_sc2_file@, *registry),
            !sc2p::container_ok(raw_sc2_file@, sc2p::FileKind::CitySave) ==> r == Result::<
                City,
                Sc2Error,
            >::Err(sc2p::container_error(raw_sc2_file@, sc2p::FileKind::CitySave)),
            sc2p::container_ok(raw_sc2_file@, sc2p::FileKind::CitySave) && !planes_ok(raw_sc2_file@)
                ==> r == Result::<City, Sc2Error>::Err(Sc2Error::FormatMismatch),
            sc2p::container_ok(raw_sc2_file@, sc2p::FileKind::CitySave) && planes_ok(raw_sc2_file@)
                && footprint::has_unknown_origin(
                plane(raw_sc2_file@, sc2p::TAG_XBLD),
                plane(raw_sc2_file@, sc2p::TAG_XZON),
                spec_compass(raw_sc2_file@),
                *registry,
            ) ==> r is Err && r.unwrap_err() is UnknownLookupId,
            r is Ok ==> ({
                let s = raw_sc2_file@;
                let c = r.unwrap();
                &&& c.city_size == 128
                &&& c.city_name@ == spec_city_name(raw_cnam(s), original_filename@)
                &&& c.original_filename@ == original_filename@
                &&& c.tilelist@.len() == 16384
                &&& (forall|idx: int|
                    0 <= idx < 16384 ==> tile_decoded(
                        #[trigger] c.tilelist@[idx],
                        idx,
                        raw_chunk(s, sc2p::TAG_ALTM),
                        plane(s, sc2p::TAG_XTER),
                        plane(s, sc2p::TAG_XZON),
                        plane(s, sc2p::TAG_XUND),
                        plane(s, sc2p::TAG_XTXT),
                        plane(s, sc2p::TAG_XBIT),
                    ))
                &&& footprint::arena_ok(c.building_arena@, plane(s, sc2p::TAG_XBLD), *registry)
                &&& footprint::attach_ok(
                    city_attachments(c),
                    c.building_arena@,
                    plane(s, sc2p::TAG_XBLD),
                )
                &&& footprint::scanned_resolved(
                    plane(s, sc2p::TAG_XBLD),
                    plane(s, sc2p::TAG_XZON),
                    spec_compass(s),
                    *registry,
                    city_attachments(c),
                    c.holes@,
                    c.networks@,
                    16384,
                )
                &&& (forall|k: int|
                    0 <= k < c.buildings@.len() ==> (#[trigger] c.buildings@[k]).1
                        < c.building_arena@.len())
                &&& (forall|k: int|
                    0 <= k < c.networks@.len() ==> (#[trigger] c.networks@[k]).1
                        < c.building_arena@.len())
                &&& (forall|k: int|
                    0 <= k < c.groundcover@.len() ==> (#[trigger] c.groundcover@[k]).1
                        < c.building_arena@.len())
                &&& c.traffic.data@ == plane(s, sc2p::TAG_XTRF).subrange(0, 4096)
                &&& c.pollution.data@ == plane(s, sc2p::TAG_XPLT).subrange(0, 4096)
                &&& c.value.data@ == plane(s, sc2p::TAG_XVAL).subrange(0, 4096)
                &&& c.crime.data@ == plane(s, sc2p::TAG_XCRM).subrange(0, 4096)
                &&& c.police.data@ == plane(s, sc2p::TAG_XPLC).subrange(0, 1024)
                &&& c.fire.data@ == plane(s, sc2p::TAG_XFIR).subrange(0, 1024)
                &&& c.density.data@ == plane(s, sc2p::TAG_XPOP).subrange(0, 1024)
                &&& c.growth.data@ == plane(s, sc2p::TAG_XROG).subrange(0, 1024)
                &&& c.traffic.wf() && c.traffic.size == 64
                &&& c.pollution.wf() && c.pollution.size == 64
                &&& c.value.wf() && c.value.size == 64
                &&& c.crime.wf() && c.crime.size == 64
                &&& c.police.wf() && c.police.size == 32
                &&& c.fire.wf() && c.fire.size == 32
                &&& c.density.wf() && c.density.size == 32
                &&& c.growth.wf() && c.growth.size == 32
                &&& misc::city_attributes_decoded(c.city_attributes, plane(s, sc2p::TAG_MISC))
                &&& misc::simulator_settings_decoded(
                    c.simulator_settings,
                    plane(s, sc2p::TAG_MISC),
                )
                &&& misc::game_settings_decoded(c.game_settings, plane(s, sc2p::TAG_MISC))
                &&& misc::inventions_decoded(c.inventions, plane(s, sc2p::TAG_MISC))
                &&& c.budget is Some
                &&& crate::budget::budget_decoded(c.budget.unwrap(), plane(s, sc2p::TAG_MISC))
                &&& c.building_count@.len() == 256
                &&& (forall|k: int|
                    0 <= k < 256 ==> c.building_count@[k] == int_at(
                        plane(s, sc2p::TAG_MISC),
                        0x01f0 + 4 * k,
                    ))
                &&& c.neighbor_info@.len() == 4
                &&& (forall|n: int|
                    0 <= n < 4 ==> (#[trigger] c.neighbor_info@[n]).name == int_at(
                        plane(s, sc2p::TAG_MISC),
                        0x06d8 + 16 * n + 8,
                    ) && c.neighbor_info@[n].population == int_at(
                        plane(s, sc2p::TAG_MISC),
                        0x06d8 + 16 * n + 12,
                    ) && c.neighbor_info@[n].value == int_at(
                        plane(s, sc2p::TAG_MISC),
                        0x06d8 + 16 * n,
                    ) && c.neighbor_info@[n].fame == int_at(
                        plane(s, sc2p::TAG_MISC),
                        0x06d8 + 16 * n + 4,
                    ))
                &&& c.labels.deep_view() == labels_of(
                    plane(s, sc2p::TAG_XLAB),
                    plane(s, sc2p::TAG_XLAB).len() as int / 25,
                )
                &&& c.microsim_state.deep_view().len() == plane(s, sc2p::TAG_XMIC).len() as int / 8
                &&& (forall|k: int|
                    0 <= k < c.microsim_state.deep_view().len()
                        ==> #[trigger] c.microsim_state.deep_view()[k] == plane(
                        s,
                        sc2p::TAG_XMIC,
                    ).subrange(8 * k, 8 * k + 8))
                &&& c.things@.len() == plane(s, sc2p::TAG_XTHG).len() as int / 12
                &&& (forall|k: int|
                    0 <= k < c.things@.len() ==> (#[trigger] c.things@[k]).thing_id == plane(
                        s,
                        sc2p::TAG_XTHG,
                    )[12 * k] && c.things@[k].x == plane(s, sc2p::TAG_XTHG)[12 * k + 3]
                        && c.things@[k].y == plane(s, sc2p::TAG_XTHG)[12 * k + 4]
                        && c.things@[k].data@ == plane(s, sc2p::TAG_XTHG).subrange(
                        12 * k + 5,
                        12 * k + 12,
                    ))
                &&& c.graphs@.len() == 16
                &&& (forall|g: int, k: int|
                    0 <= g < 16 && 0 <= k < 12 ==> (#[trigger] c.graphs@[g].one_year@[k]) == int_at(
                        plane(s, sc2p::TAG_XGRP),
                        208 * g + 4 * k,
                    ))
                &&& (forall|g: int, k: int|
                    0 <= g < 16 && 0 <= k < 20 ==> (#[trigger] c.graphs@[g].ten_years@[k])
                        == int_at(plane(s, sc2p::TAG_XGRP), 208 * g + 48 + 4 * k))
                &&& (forall|g: int, k: int|
                    0 <= g < 16 && 0 <= k < 20 ==> (#[trigger] c.graphs@[g].hundred_years@[k])
                        == int_at(plane(s, sc2p::TAG_XGRP), 208 * g + 128 + 4 * k))
                &&& c.is_scenario == scenario_present(s)
                &&& (c.is_scenario ==> c.scenario_text@ == sc_util::utf8_lossy_of(
                    scenario::cr_to_lf(
                        scenario::last_text_body(scenario_texts(s), 0x8000_0000),
                    ),
                ))
                &&& (c.is_scenario ==> c.scenario_descriptive_text@ == sc_util::utf8_lossy_of(
                    scenario::cr_to_lf(
                        scenario::last_text_body(scenario_texts(s), 0x8100_0000),
                    ),
                ))
                &&& (c.is_scenario ==> c.scenario_condition == Some(
                    scenario::spec_conditions(raw_chunk(s, sc2p::TAG_SCEN)),
                ))
                &&& (c.is_scenario ==> c.scenario_unknown_text_ids@ == scenario::unknown_ids(
                    scenario_texts(s),
                ))
                &&& (c.is_scenario ==> c.scenario_bad_picture_rows@ == scenario::bad_rows(
                    raw_chunk(s, sc2p::TAG_PICT).skip(8),
                    scenario::pict_width(raw_chunk(s, sc2p::TAG_PICT)),
                    scenario::pict_height(raw_chunk(s, sc2p::TAG_PICT)),
                ))
                &&& (c.is_scenario ==> c.scenario_bad_picture_magic == !(raw_chunk(
                    s,
                    sc2p::TAG_PICT,
                )[0] == 0x80 && raw_chunk(s, sc2p::TAG_PICT)[1] == 0 && raw_chunk(
                    s,
                    sc2p::TAG_PICT,
                )[2] == 0 && raw_chunk(s, sc2p::TAG_PICT)[3] == 0))
                &&& (c.is_scenario ==> c.scenario_pict@ == scenario::pict_image(
                    raw_chunk(s, sc2p::TAG_PICT).skip(8),
                    scenario::pict_width(raw_chunk(s, sc2p::TAG_PICT)),
                    scenario::pict_height(raw_chunk(s, sc2p::TAG_PICT)),
                ))
                &&& (!c.is_scenario ==> c.scenario_condition is None && c.scenario_pict@
                    == Seq::<u8>::empty())
            }),
    {
        let compressed_data = match sc2p::chunk_input_serial(
            raw_sc2_file,
            sc2p::FileKind::CitySave,
        ) {
            Ok(c) => c,
            Err(e) => {
                return Err(e);
            },
        };
        let uncompressed = match sc2p::sc2_uncompress_input(
            compressed_data,
            sc2p::FileKind::CitySave,
        ) {
            Ok(c) => c,
            Err(e) => {
                return Err(e);
            },
        };

        if uncompressed.xzon.len() != 16384 || uncompressed.xund.len() != 16384
            || uncompressed.xtxt.len() != 16384 || uncompressed.xbit.len() != 16384
            || uncompressed.xtrf.len() < 4096 || uncompressed.xplt.len() < 4096
            || uncompressed.xval.len() < 4096 || uncompressed.xcrm.len() < 4096
            || uncompressed.xplc.len() < 1024 || uncompressed.xfir.len() < 1024
            || uncompressed.xpop.len() < 1024 || uncompressed.xrog.len() < 1024
            || uncompressed.xlab.len() % 25 != 0 || uncompressed.xmic.len() % 8 != 0
            || uncompressed.xthg.len() % 12 != 0 || uncompressed.xgrp.len() < 3328 {
            return Err(Sc2Error::FormatMismatch);
        }

        let misc_params = misc::parse_misc(uncompressed.misc.as_slice());
        let compass = misc_params.simulator_settings.compass;
        if compass < 0 || compass >= 4 {
            return Err(Sc2Error::FormatMismatch);
        }
        let rotation = compass as usize;

        let placement = match footprint::find_buildings(
            &uncompressed.xbld,
            &uncompressed.xzon,
            rotation,
            registry,
        ) {
            Ok(p) => p,
            Err(e) => {
                return Err(e);
            },
        };

        let traffic = minimap_from_plane("traffic", 64, &uncompressed.xtrf);
        let pollution = minimap_from_plane("pollution", 64, &uncompressed.xplt);
        let value = minimap_from_plane("value", 64, &uncompressed.xval);
        let crime = minimap_from_plane("crime", 64, &uncompressed.xcrm);
        let police = minimap_from_plane("police", 32, &uncompressed.xplc);
        let fire = minimap_from_plane("fire", 32, &uncompressed.xfir);
        let density = minimap_from_plane("density", 32, &uncompressed.xpop);
        let growth = minimap_from_plane("growth", 32, &uncompressed.xrog);

        let tilelist = create_tilelist(
            &uncompressed.altm,
            &uncompressed.xter,
            &uncompressed.xzon,
            &uncompressed.xund,
            &uncompressed.xtxt,
            &uncompressed.xbit,
            &placement.attachments,
        );

        let labels = parse_labels(&uncompressed.xlab);
        let microsim_state = parse_microsim(&uncompressed.xmic);
        let things = parse_things(&uncompressed.xthg);
        let graphs = parse_graphs(&uncompressed.xgrp);
        let city_name = name_city(&uncompressed.cnam, original_filename);

        let has_scenario = uncompressed.text.len() > 0 && uncompressed.scen.len() > 0
            && uncompressed.pict.len() > 0;
        let mut is_scenario = false;
        let mut scenario_text = String::new();
        let mut scenario_descriptive_text = String::new();
        let mut scenario_condition: Option<scenario::ScenarioConditions> = None;
        let mut scenario_pict: Vec<u8> = Vec::new();
        let mut scenario_unknown_text_ids: Vec<u32> = Vec::new();
        let mut scenario_short_texts: usize = 0;
        let mut scenario_bad_picture_magic = false;
        let mut scenario_bad_picture_rows: Vec<usize> = Vec::new();
        if has_scenario {
            let data = match scenario::parse_scenario(
                &uncompressed.text,
                &uncompressed.scen,
                &uncompressed.pict,
            ) {
                Ok(d) => d,
                Err(e) => {
                    return Err(e);
                },
            };
            is_scenario = true;
            scenario_text = data.scenario_text;
            scenario_descriptive_text = data.scenario_descriptive_text;
            scenario_condition = Some(data.conditions);
            scenario_pict = data.picture;
            scenario_unknown_text_ids = data.unknown_text_ids;
            scenario_short_texts = data.short_text_entries;
            scenario_bad_picture_magic = data.bad_picture_magic;
            scenario_bad_picture_rows = data.bad_picture_rows;
        }

        let city = City {
            city_name,
            labels,
            microsim_state,
            tilelist,
            building_arena: placement.arena,
            buildings: placement.buildings,
            networks: placement.networks,
            groundcover: placement.groundcover,
            holes: placement.holes,
            things,
            city_size: 128,
            graphs,
            city_attributes: misc_params.city_attributes,
            budget: Some(misc_params.budget),
            neighbor_info: misc_params.neighbor_info,
            building_count: misc_params.building_count,
            game_settings: misc_params.game_settings,
            inventions: misc_params.inventions,
            population_graphs: misc_params.population_graphs,
            industry_graphs: misc_params.industry_graphs,
            simulator_settings: misc_params.simulator_settings,
            traffic,
            pollution,
            value,
            crime,
            police,
            fire,
            density,
            growth,
            is_scenario,
            scenario_text,
            scenario_descriptive_text,
            scenario_condition,
            scenario_pict,
            scenario_unknown_text_ids,
            scenario_short_texts,
            scenario_bad_picture_magic,
            scenario_bad_picture_rows,
            original_filename: String::from_str(original_filename),
        };
        proof {
            assert(city_attachments(city) =~= placement.attachments@);
        }
        Ok(city)
    }
}

} // verus!
