//! Building, network and groundcover placement reconstruction: scans the
//! tile grid in row-major order for footprint origin corners, exactly as the
//! legacy placement algorithm did, including the row clamp at the map edge
//! and non-fatal holes.

use vstd::prelude::*;

use crate::building::Building;
use crate::buildings::BuildingRegistry;
use crate::errors::Sc2Error;

verus! {

/// The corner bit that marks a footprint origin under each map rotation.
pub open spec fn corner_mask(rotation: int) -> u32 {
    if rotation == 0 {
        0b1000
    } else if rotation == 1 {
        0b0001
    } else if rotation == 2 {
        0b0010
    } else {
        0b0100
    }
}

/// Selects the origin corner bit for the city's rotation: rotation 0 uses
/// 0b1000, rotation 1 uses 0b0001, rotation 2 uses 0b0010, rotation 3 uses
/// 0b0100.
pub fn left_corner_mask(rotation: usize) -> (r: u32)
    requires
        rotation < 4,
    ensures
        r == corner_mask(rotation as int),
{
    if rotation == 0 {
        0b1000
    } else if rotation == 1 {
        0b0001
    } else if rotation == 2 {
        0b0010
    } else {
        0b0100
    }
}

/// Whether a tile with zone byte `zon` is a footprint origin under
/// `rotation`: the corner bit selected by the rotation is set in the top
/// four bits of the zone byte.
pub open spec fn spec_is_origin(zon: u8, rotation: int) -> bool {
    ((zon / 16) as u32 & corner_mask(rotation)) != 0
}

/// One past the last footprint row: the origin row plus the footprint side,
/// clamped at 127 (a legacy quirk kept for certain 3x3 buildings that
/// overrun the map edge).
pub open spec fn footprint_row_end(r0: int, size: int) -> int {
    if r0 + size < 127 {
        r0 + size
    } else {
        127
    }
}

/// The first footprint column: the origin column minus the footprint side
/// plus one, clamped at the map edge.
pub open spec fn footprint_col_start(c0: int, size: int) -> int {
    if c0 - (size - 1) >= 0 {
        c0 - (size - 1)
    } else {
        0
    }
}

/// Whether `(r, c)` lies in the clamped footprint square anchored at the
/// origin `(r0, c0)`.
pub open spec fn in_clamped_footprint(r0: int, c0: int, size: int, r: int, c: int) -> bool {
    r0 <= r < footprint_row_end(r0, size) && footprint_col_start(c0, size) <= c <= c0
}

/// Whether the building `b` claims the tile `(r, c)`: its origin tile, or a
/// tile of its clamped footprint.
pub open spec fn covers(b: Building, r: int, c: int) -> bool {
    (b.tile_coords.0 == r && b.tile_coords.1 == c) || in_clamped_footprint(
        b.tile_coords.0 as int,
        b.tile_coords.1 as int,
        b.size as int,
        r,
        c,
    )
}

/// Whether some entry of `s` is the coordinate pair `(r, c)`.
pub open spec fn has_coord(s: Seq<(usize, usize)>, r: int, c: int) -> bool {
    exists|k: int| 0 <= k < s.len() && #[trigger] s[k] == ((r as usize, c as usize))
}

/// Whether some entry of the coordinate-keyed list `s` has key `(r, c)`.
pub open spec fn dict_has_coord(s: Seq<((usize, usize), usize)>, r: int, c: int) -> bool {
    exists|k: int| 0 <= k < s.len() && (#[trigger] s[k]).0 == ((r as usize, c as usize))
}

/// The outcome of placement reconstruction. Buildings live in one arena;
/// the three coordinate-keyed collections and the per-tile attachments refer
/// to them by index, so every footprint tile of one building shares one
/// instance.
#[derive(Debug)]
pub struct Placement {
    /// Every building instance created during the scan, in creation order.
    pub arena: Vec<Building>,
    /// Footprint origins of non-network buildings, keyed by origin tile.
    pub buildings: Vec<((usize, usize), usize)>,
    /// Network pieces, keyed by each tile they were recorded on.
    pub networks: Vec<((usize, usize), usize)>,
    /// Single-tile groundcover, keyed by its tile.
    pub groundcover: Vec<((usize, usize), usize)>,
    /// For each tile in row-major order, the building that claims it.
    pub attachments: Vec<Option<usize>>,
    /// Footprint tiles whose building id did not match their origin's id.
    pub holes: Vec<(usize, usize)>,
}

/// The footprint of the origin at `(r0, c0)` is fully resolved: every tile
/// of the clamped footprint square either carries the origin's building id
/// (and is then attached, or recorded as a network tile) or is logged as a
/// hole.
/// One footprint tile is accounted for: a tile carrying the origin's id is
/// attached (or, for a network, recorded in the network collection), any
/// other tile is logged as a hole.
pub open spec fn fp_cell_done(
    xbld: Seq<u8>,
    network: bool,
    id: u8,
    att: Seq<Option<usize>>,
    holes: Seq<(usize, usize)>,
    nets: Seq<((usize, usize), usize)>,
    r: int,
    c: int,
) -> bool {
    if xbld[r * 128 + c] == id {
        if network {
            dict_has_coord(nets, r, c)
        } else {
            att[r * 128 + c] is Some
        }
    } else {
        has_coord(holes, r, c)
    }
}

/// The footprint of the origin at `(r0, c0)` is fully resolved: every tile
/// of the clamped footprint square is accounted for.
pub open spec fn origin_resolved(
    xbld: Seq<u8>,
    network: bool,
    id: u8,
    size: int,
    att: Seq<Option<usize>>,
    holes: Seq<(usize, usize)>,
    nets: Seq<((usize, usize), usize)>,
    r0: int,
    c0: int,
) -> bool {
    forall|r: int, c: int|
        #![trigger in_clamped_footprint(r0, c0, size, r, c)]
        in_clamped_footprint(r0, c0, size, r, c) ==> fp_cell_done(
            xbld,
            network,
            id,
            att,
            holes,
            nets,
            r,
            c,
        )
}

/// One arena entry is consistent with the planes and the lookup: its origin
/// lies on the map, the building-id plane carries its id there, and its id
/// and footprint size come from the lookup.
pub open spec fn arena_entry_ok(b: Building, xbld: Seq<u8>, reg: BuildingRegistry) -> bool {
    &&& b.tile_coords.0 < 128
    &&& b.tile_coords.1 < 128
    &&& xbld[b.tile_coords.0 * 128 + b.tile_coords.1] == b.building_id
    &&& reg.entries@[b.building_id as int].known
    &&& b.size == reg.entries@[b.building_id as int].size
}

/// The placement is well formed: every arena entry is consistent, every
/// attachment points at an arena entry whose id matches the tile's byte and
/// whose footprint claims the tile, and every collection entry points into
/// the arena.
pub open spec fn placement_wf(p: Placement, xbld: Seq<u8>, reg: BuildingRegistry) -> bool {
    &&& p.attachments@.len() == 16384
    &&& forall|h: int| 0 <= h < p.arena@.len() ==> arena_entry_ok(#[trigger] p.arena@[h], xbld, reg)
    &&& forall|r: int, c: int|
        0 <= r < 128 && 0 <= c < 128 && (#[trigger] p.attachments@[r * 128 + c]) is Some ==> {
            let h = p.attachments@[r * 128 + c].unwrap();
            &&& h < p.arena@.len()
            &&& p.arena@[h as int].building_id == xbld[r * 128 + c]
            &&& covers(p.arena@[h as int], r, c)
        }
    &&& forall|k: int| 0 <= k < p.buildings@.len() ==> (#[trigger] p.buildings@[k]).1 < p.arena@.len()
    &&& forall|k: int| 0 <= k < p.networks@.len() ==> (#[trigger] p.networks@[k]).1 < p.arena@.len()
    &&& forall|k: int|
        0 <= k < p.groundcover@.len() ==> (#[trigger] p.groundcover@[k]).1 < p.arena@.len()
}

/// Every corner origin of the planes is resolved in the placement.
pub open spec fn all_origins_resolved(
    p: Placement,
    xbld: Seq<u8>,
    xzon: Seq<u8>,
    rotation: int,
    reg: BuildingRegistry,
) -> bool {
    forall|r0: int, c0: int|
        0 <= r0 < 128 && 0 <= c0 < 128 && #[trigger] spec_is_origin(
            xzon[r0 * 128 + c0],
            rotation,
        ) ==> origin_resolved(
            xbld,
            reg.entries@[xbld[r0 * 128 + c0] as int].network,
            xbld[r0 * 128 + c0],
            reg.entries@[xbld[r0 * 128 + c0] as int].size as int,
            p.attachments@,
            p.holes@,
            p.networks@,
            r0,
            c0,
        )
}

/// Some corner origin carries a building id the lookup does not know.
pub open spec fn has_unknown_origin(
    xbld: Seq<u8>,
    xzon: Seq<u8>,
    rotation: int,
    reg: BuildingRegistry,
) -> bool {
    exists|r0: int, c0: int|
        0 <= r0 < 128 && 0 <= c0 < 128 && #[trigger] spec_is_origin(xzon[r0 * 128 + c0], rotation)
            && !reg.entries@[xbld[r0 * 128 + c0] as int].known
}

/// The attachments point only at arena entries whose id matches the tile's
/// byte in the building plane and whose footprint claims the tile.
pub open spec fn attach_ok(att: Seq<Option<usize>>, arena: Seq<Building>, xbld: Seq<u8>) -> bool {
    forall|r: int, c: int|
        0 <= r < 128 && 0 <= c < 128 && (#[trigger] att[r * 128 + c]) is Some ==> {
            let h = att[r * 128 + c].unwrap();
            &&& h < arena.len()
            &&& arena[h as int].building_id == xbld[r * 128 + c]
            &&& covers(arena[h as int], r, c)
        }
}

/// Every arena entry is consistent with the planes and the lookup.
pub open spec fn arena_ok(arena: Seq<Building>, xbld: Seq<u8>, reg: BuildingRegistry) -> bool {
    forall|h: int| 0 <= h < arena.len() ==> arena_entry_ok(#[trigger] arena[h], xbld, reg)
}

/// Every origin whose row-major index is below `bound` has a known id and a
/// resolved footprint.
pub open spec fn scanned_resolved(
    xbld: Seq<u8>,
    xzon: Seq<u8>,
    rotation: int,
    reg: BuildingRegistry,
    att: Seq<Option<usize>>,
    holes: Seq<(usize, usize)>,
    nets: Seq<((usize, usize), usize)>,
    bound: int,
) -> bool {
    forall|r0: int, c0: int|
        0 <= r0 < 128 && 0 <= c0 < 128 && r0 * 128 + c0 < bound && #[trigger] spec_is_origin(
            xzon[r0 * 128 + c0],
            rotation,
        ) ==> reg.entries@[xbld[r0 * 128 + c0] as int].known && origin_resolved(
            xbld,
            reg.entries@[xbld[r0 * 128 + c0] as int].network,
            xbld[r0 * 128 + c0],
            reg.entries@[xbld[r0 * 128 + c0] as int].size as int,
            att,
            holes,
            nets,
            r0,
            c0,
        )
}

proof fn lemma_cell_done_extends(
    xbld: Seq<u8>,
    network: bool,
    id: u8,
    att1: Seq<Option<usize>>,
    holes1: Seq<(usize, usize)>,
    nets1: Seq<((usize, usize), usize)>,
    att2: Seq<Option<usize>>,
    holes2: Seq<(usize, usize)>,
    nets2: Seq<((usize, usize), usize)>,
    r: int,
    c: int,
)
    requires
        fp_cell_done(xbld, network, id, att1, holes1, nets1, r, c),
        0 <= r * 128 + c < att1.len(),
        att2.len() == att1.len(),
        forall|i: int| 0 <= i < att1.len() && (#[trigger] att1[i]) is Some ==> att2[i] is Some,
        holes1.is_prefix_of(holes2),
        nets1.is_prefix_of(nets2),
    ensures
        fp_cell_done(xbld, network, id, att2, holes2, nets2, r, c),
{
    if xbld[r * 128 + c] == id {
        if network {
            let k = choose|k: int|
                0 <= k < nets1.len() && (#[trigger] nets1[k]).0 == ((r as usize, c as usize));
            assert(nets2[k] == nets1[k]);
            assert(dict_has_coord(nets2, r, c));
        }
    } else {
        let k = choose|k: int|
            0 <= k < holes1.len() && #[trigger] holes1[k] == ((r as usize, c as usize));
        assert(holes2[k] == holes1[k]);
        assert(has_coord(holes2, r, c));
    }
}

proof fn lemma_resolved_extends(
    xbld: Seq<u8>,
    network: bool,
    id: u8,
    size: int,
    att1: Seq<Option<usize>>,
    holes1: Seq<(usize, usize)>,
    nets1: Seq<((usize, usize), usize)>,
    att2: Seq<Option<usize>>,
    holes2: Seq<(usize, usize)>,
    nets2: Seq<((usize, usize), usize)>,
    r0: int,
    c0: int,
)
    requires
        origin_resolved(xbld, network, id, size, att1, holes1, nets1, r0, c0),
        0 <= r0 < 128,
        0 <= c0 < 128,
        att1.len() == 16384,
        att2.len() == att1.len(),
        forall|i: int| 0 <= i < att1.len() && (#[trigger] att1[i]) is Some ==> att2[i] is Some,
        holes1.is_prefix_of(holes2),
        nets1.is_prefix_of(nets2),
    ensures
        origin_resolved(xbld, network, id, size, att2, holes2, nets2, r0, c0),
{
    assert forall|r: int, c: int|
        #![trigger in_clamped_footprint(r0, c0, size, r, c)]
        in_clamped_footprint(r0, c0, size, r, c) implies fp_cell_done(
        xbld,
        network,
        id,
        att2,
        holes2,
        nets2,
        r,
        c,
    ) by {
        assert(0 <= r * 128 + c < att1.len()) by {
            assert(0 <= r0 <= r < 127);
            assert(0 <= c <= c0 < 128);
        }
        lemma_cell_done_extends(
            xbld,
            network,
            id,
            att1,
            holes1,
            nets1,
            att2,
            holes2,
            nets2,
            r,
            c,
        );
    }
}

proof fn lemma_scanned_extends(
    xbld: Seq<u8>,
    xzon: Seq<u8>,
    rotation: int,
    reg: BuildingRegistry,
    att1: Seq<Option<usize>>,
    holes1: Seq<(usize, usize)>,
    nets1: Seq<((usize, usize), usize)>,
    att2: Seq<Option<usize>>,
    holes2: Seq<(usize, usize)>,
    nets2: Seq<((usize, usize), usize)>,
    bound: int,
)
    requires
        scanned_resolved(xbld, xzon, rotation, reg, att1, holes1, nets1, bound),
        att1.len() == 16384,
        att2.len() == att1.len(),
        forall|i: int| 0 <= i < att1.len() && (#[trigger] att1[i]) is Some ==> att2[i] is Some,
        holes1.is_prefix_of(holes2),
        nets1.is_prefix_of(nets2),
    ensures
        scanned_resolved(xbld, xzon, rotation, reg, att2, holes2, nets2, bound),
{
    assert forall|r0: int, c0: int|
        0 <= r0 < 128 && 0 <= c0 < 128 && r0 * 128 + c0 < bound && #[trigger] spec_is_origin(
        xzon[r0 * 128 + c0],
        rotation,
    ) implies reg.entries@[xbld[r0 * 128 + c0] as int].known && origin_resolved(
        xbld,
        reg.entries@[xbld[r0 * 128 + c0] as int].network,
        xbld[r0 * 128 + c0],
        reg.entries@[xbld[r0 * 128 + c0] as int].size as int,
        att2,
        holes2,
        nets2,
        r0,
        c0,
    ) by {
        lemma_resolved_extends(
            xbld,
            reg.entries@[xbld[r0 * 128 + c0] as int].network,
            xbld[r0 * 128 + c0],
            reg.entries@[xbld[r0 * 128 + c0] as int].size as int,
            att1,
            holes1,
            nets1,
            att2,
            holes2,
            nets2,
            r0,
            c0,
        );
    }
}


/// Finds every building, network piece and groundcover patch: scans the
/// tiles in row-major order for origin corners under the city's rotation,
/// reconstructs each footprint (holes are logged, never fatal), records
/// loose groundcover and single network tiles individually, and fails only
/// when a corner origin carries a building id the lookup does not know.
#[verifier::loop_isolation(false)]
#[verifier::rlimit(100)]
pub fn find_buildings(
    xbld: &Vec<u8>,
    xzon: &Vec<u8>,
    rotation: usize,
    registry: &BuildingRegistry,
) -> (r: Result<Placement, Sc2Error>)
    requires
        xbld@.len() == 16384,
        xzon@.len() == 16384,
        rotation < 4,
        registry.wf(),
    ensures
        r is Ok <==> !has_unknown_origin(xbld@, xzon@, rotation as int, *registry),
        r is Err ==> r.unwrap_err() is UnknownLookupId,
        r is Ok ==> placement_wf(r.unwrap(), xbld@, *registry),
        r is Ok ==> all_origins_resolved(r.unwrap(), xbld@, xzon@, rotation as int, *registry),
{
    let mask = left_corner_mask(rotation);
    let mut arena: Vec<Building> = Vec::new();
    let mut buildings: Vec<((usize, usize), usize)> = Vec::new();
    let mut networks: Vec<((usize, usize), usize)> = Vec::new();
    let mut groundcover: Vec<((usize, usize), usize)> = Vec::new();
    let mut attachments: Vec<Option<usize>> = vec![None; 16384];
    let mut holes: Vec<(usize, usize)> = Vec::new();

    let mut row: usize = 0;
    while row < 128
        invariant
            row <= 128,
            attachments@.len() == 16384,
            arena_ok(arena@, xbld@, *registry),
            attach_ok(attachments@, arena@, xbld@),
            forall|k: int| 0 <= k < buildings@.len() ==> (#[trigger] buildings@[k]).1 < arena@.len(),
            forall|k: int| 0 <= k < networks@.len() ==> (#[trigger] networks@[k]).1 < arena@.len(),
            forall|k: int|
                0 <= k < groundcover@.len() ==> (#[trigger] groundcover@[k]).1 < arena@.len(),
            scanned_resolved(
                xbld@,
                xzon@,
                rotation as int,
                *registry,
                attachments@,
                holes@,
                networks@,
                (row as int) * 128,
            ),
        decreases 128 - row,
    {
        let mut col: usize = 0;
        while col < 128
            invariant
                col <= 128,
                attachments@.len() == 16384,
                arena_ok(arena@, xbld@, *registry),
                attach_ok(attachments@, arena@, xbld@),
                forall|k: int|
                    0 <= k < buildings@.len() ==> (#[trigger] buildings@[k]).1 < arena@.len(),
                forall|k: int|
                    0 <= k < networks@.len() ==> (#[trigger] networks@[k]).1 < arena@.len(),
                forall|k: int|
                    0 <= k < groundcover@.len() ==> (#[trigger] groundcover@[k]).1 < arena@.len(),
                scanned_resolved(
                    xbld@,
                    xzon@,
                    rotation as int,
                    *registry,
                    attachments@,
                    holes@,
                    networks@,
                    (row as int) * 128 + (col as int),
                ),
            decreases 128 - col,
        {
            let idx = row * 128 + col;
            let ghost bound = (row as int) * 128 + (col as int);
            let zon = xzon[idx];
            let building_id = xbld[idx];
            let ghost pre_att = attachments@;
            let ghost pre_holes = holes@;
            let ghost pre_nets = networks@;

            if ((zon / 16) as u32 & mask) != 0 {
                proof {
                    assert(spec_is_origin(xzon@[bound], rotation as int));
                }
                let entry = registry.get(building_id);
                if !entry.known {
                    proof {
                        assert(0 <= (row as int) < 128 && 0 <= (col as int) < 128 && spec_is_origin(
                            xzon@[(row as int) * 128 + (col as int)],
                            rotation as int,
                        ) && !registry.entries@[xbld@[(row as int) * 128 + (col as int)] as int].known);
                    }
                    return Err(Sc2Error::UnknownLookupId { id: building_id });
                }
                let size = entry.size as usize;
                let is_network = entry.network;
                let h = arena.len();
                arena.push(Building::new(building_id, (row, col), entry.name.clone(), size));
                if is_network {
                    networks.push(((row, col), h));
                } else {
                    buildings.push(((row, col), h));
                }
                attachments[idx] = Some(h);
                proof {
                    assert(arena@[h as int].building_id == building_id);
                    assert(arena@[h as int].tile_coords == (row, col));
                    assert(arena@[h as int].size == size);
                    assert(arena_ok(arena@, xbld@, *registry)) by {
                        assert(arena_entry_ok(arena@[h as int], xbld@, *registry));
                    }
                    assert(attach_ok(attachments@, arena@, xbld@)) by {
                        assert forall|r2: int, c2: int|
                            0 <= r2 < 128 && 0 <= c2 < 128 && (#[trigger] attachments@[r2 * 128
                                + c2]) is Some implies {
                            let hh = attachments@[r2 * 128 + c2].unwrap();
                            &&& hh < arena@.len()
                            &&& arena@[hh as int].building_id == xbld@[r2 * 128 + c2]
                            &&& covers(arena@[hh as int], r2, c2)
                        } by {
                            if r2 * 128 + c2 != bound {
                                assert(attachments@[r2 * 128 + c2] == pre_att[r2 * 128 + c2]);
                            } else {
                                assert(r2 == row && c2 == col);
                                assert(covers(arena@[h as int], r2, c2));
                            }
                        }
                    }
                }

                let ghost fp_att = attachments@;
                let ghost fp_holes = holes@;
                let ghost fp_nets = networks@;
                if size > 1 {
                    let row_end = if row + size < 127 {
                        row + size
                    } else {
                        127
                    };
                    let col_start = if col + 1 >= size {
                        col + 1 - size
                    } else {
                        0
                    };
                    let mut r2 = row;
                    while r2 < row_end
                        invariant
                            row <= r2 <= row_end,
                            attachments@.len() == 16384,
                            attach_ok(attachments@, arena@, xbld@),
                            fp_holes.is_prefix_of(holes@),
                            fp_nets.is_prefix_of(networks@),
                            forall|k: int|
                                0 <= k < networks@.len() ==> (#[trigger] networks@[k]).1
                                    < arena@.len(),
                            forall|i: int|
                                0 <= i < 16384 && (#[trigger] fp_att[i]) is Some
                                    ==> attachments@[i] is Some,
                            forall|ra: int, ca: int|
                                #![trigger in_clamped_footprint(row as int, col as int, size as int, ra, ca)]
                                in_clamped_footprint(row as int, col as int, size as int, ra, ca)
                                    && ra < r2 ==> fp_cell_done(
                                    xbld@,
                                    is_network,
                                    building_id,
                                    attachments@,
                                    holes@,
                                    networks@,
                                    ra,
                                    ca,
                                ),
                        decreases row_end - r2,
                    {
                        let mut c2 = col_start;
                        while c2 <= col
                            invariant
                                col_start <= c2 <= col + 1,
                                attachments@.len() == 16384,
                                attach_ok(attachments@, arena@, xbld@),
                                fp_holes.is_prefix_of(holes@),
                                fp_nets.is_prefix_of(networks@),
                                forall|k: int|
                                    0 <= k < networks@.len() ==> (#[trigger] networks@[k]).1
                                        < arena@.len(),
                                forall|i: int|
                                    0 <= i < 16384 && (#[trigger] fp_att[i]) is Some
                                        ==> attachments@[i] is Some,
                                forall|ra: int, ca: int|
                                    #![trigger in_clamped_footprint(row as int, col as int, size as int, ra, ca)]
                                    in_clamped_footprint(
                                        row as int,
                                        col as int,
                                        size as int,
                                        ra,
                                        ca,
                                    ) && (ra < r2 || (ra == r2 && ca < c2)) ==> fp_cell_done(
                                        xbld@,
                                        is_network,
                                        building_id,
                                        attachments@,
                                        holes@,
                                        networks@,
                                        ra,
                                        ca,
                                    ),
                            decreases col - c2 + 1,
                        {
                            let idx2 = r2 * 128 + c2;
                            let ghost step_att = attachments@;
                            let ghost step_holes = holes@;
                            let ghost step_nets = networks@;
                            let next_id = xbld[idx2];
                            if next_id == building_id {
                                if is_network {
                                    networks.push(((r2, c2), h));
                                } else {
                                    attachments[idx2] = Some(h);
                                    proof {
                                        assert(attach_ok(attachments@, arena@, xbld@)) by {
                                            assert forall|ra: int, ca: int|
                                                0 <= ra < 128 && 0 <= ca < 128 && (
                                                #[trigger] attachments@[ra * 128 + ca]) is Some implies {
                                                let hh = attachments@[ra * 128 + ca].unwrap();
                                                &&& hh < arena@.len()
                                                &&& arena@[hh as int].building_id == xbld@[ra * 128
                                                    + ca]
                                                &&& covers(arena@[hh as int], ra, ca)
                                            } by {
                                                if ra * 128 + ca != idx2 {
                                                    assert(attachments@[ra * 128 + ca]
                                                        == step_att[ra * 128 + ca]);
                                                } else {
                                                    assert(ra == r2 && ca == c2);
                                                    assert(in_clamped_footprint(
                                                        row as int,
                                                        col as int,
                                                        size as int,
                                                        ra,
                                                        ca,
                                                    ));
                                                    assert(covers(arena@[h as int], ra, ca));
                                                }
                                            }
                                        }
                                    }
                                }
                            } else {
                                holes.push((r2, c2));
                            }
                            c2 = c2 + 1;
                            proof {
                                assert(step_holes.is_prefix_of(holes@)) by {
                                    assert(holes@.subrange(0, step_holes.len() as int)
                                        =~= step_holes);
                                }
                                assert(step_nets.is_prefix_of(networks@)) by {
                                    assert(networks@.subrange(0, step_nets.len() as int)
                                        =~= step_nets);
                                }
                                assert(fp_holes.is_prefix_of(holes@)) by {
                                    assert(holes@.subrange(0, fp_holes.len() as int) =~= fp_holes);
                                }
                                assert(fp_nets.is_prefix_of(networks@)) by {
                                    assert(networks@.subrange(0, fp_nets.len() as int) =~= fp_nets);
                                }
                                assert forall|ra: int, ca: int|
                                    #![trigger in_clamped_footprint(row as int, col as int, size as int, ra, ca)]
                                    in_clamped_footprint(
                                    row as int,
                                    col as int,
                                    size as int,
                                    ra,
                                    ca,
                                ) && (ra < r2 || (ra == r2 && ca < c2)) implies fp_cell_done(
                                    xbld@,
                                    is_network,
                                    building_id,
                                    attachments@,
                                    holes@,
                                    networks@,
                                    ra,
                                    ca,
                                ) by {
                                    if ra == r2 && ca == c2 - 1 {
                                        if xbld@[ra * 128 + ca] == building_id {
                                            if is_network {
                                                assert((#[trigger] networks@[networks@.len() - 1]).0
                                                    == ((ra as usize, ca as usize)));
                                                assert(dict_has_coord(networks@, ra, ca));
                                            } else {
                                                assert(attachments@[ra * 128 + ca] is Some);
                                            }
                                        } else {
                                            assert(#[trigger] holes@[holes@.len() - 1] == ((
                                            ra as usize,
                                            ca as usize,
                                            )));
                                            assert(has_coord(holes@, ra, ca));
                                        }
                                    } else {
                                        assert(fp_cell_done(
                                            xbld@,
                                            is_network,
                                            building_id,
                                            step_att,
                                            step_holes,
                                            step_nets,
                                            ra,
                                            ca,
                                        ));
                                        lemma_cell_done_extends(
                                            xbld@,
                                            is_network,
                                            building_id,
                                            step_att,
                                            step_holes,
                                            step_nets,
                                            attachments@,
                                            holes@,
                                            networks@,
                                            ra,
                                            ca,
                                        );
                                    }
                                }
                            }
                        }
                        r2 = r2 + 1;
                    }
                }
                proof {
                    assert(pre_holes.is_prefix_of(holes@)) by {
                        assert(holes@.subrange(0, pre_holes.len() as int) =~= pre_holes);
                    }
                    assert(pre_nets.is_prefix_of(networks@)) by {
                        assert(networks@.subrange(0, pre_nets.len() as int) =~= pre_nets);
                    }
                    assert(forall|i: int|
                        0 <= i < 16384 && (#[trigger] pre_att[i]) is Some ==> attachments@[i] is Some)
                        by {
                        assert(forall|i: int|
                            0 <= i < 16384 && (#[trigger] pre_att[i]) is Some ==> fp_att[i] is Some);
                    }
                    lemma_scanned_extends(
                        xbld@,
                        xzon@,
                        rotation as int,
                        *registry,
                        pre_att,
                        pre_holes,
                        pre_nets,
                        attachments@,
                        holes@,
                        networks@,
                        bound,
                    );
                    assert(origin_resolved(
                        xbld@,
                        is_network,
                        building_id,
                        size as int,
                        attachments@,
                        holes@,
                        networks@,
                        row as int,
                        col as int,
                    )) by {
                        assert forall|ra: int, ca: int|
                            #![trigger in_clamped_footprint(row as int, col as int, size as int, ra, ca)]
                            in_clamped_footprint(
                            row as int,
                            col as int,
                            size as int,
                            ra,
                            ca,
                        ) implies fp_cell_done(
                            xbld@,
                            is_network,
                            building_id,
                            attachments@,
                            holes@,
                            networks@,
                            ra,
                            ca,
                        ) by {
                            if size > 1 {
                                assert(ra < footprint_row_end(row as int, size as int));
                            } else {
                                assert(ra == row && ca == col);
                                assert(xbld@[ra * 128 + ca] == building_id);
                                if is_network {
                                    assert((#[trigger] fp_nets[fp_nets.len() - 1]).0 == ((
                                    row,
                                    col,
                                    )));
                                    assert(fp_nets[fp_nets.len() - 1] == networks@[fp_nets.len()
                                        - 1]);
                                    assert(dict_has_coord(networks@, ra, ca));
                                } else {
                                    assert(fp_att[bound] is Some);
                                    assert(attachments@[bound] is Some);
                                }
                            }
                        }
                    }
                    assert(scanned_resolved(
                        xbld@,
                        xzon@,
                        rotation as int,
                        *registry,
                        attachments@,
                        holes@,
                        networks@,
                        bound + 1,
                    )) by {
                        assert forall|r0: int, c0: int|
                            0 <= r0 < 128 && 0 <= c0 < 128 && r0 * 128 + c0 < bound + 1
                                && #[trigger] spec_is_origin(
                            xzon@[r0 * 128 + c0],
                            rotation as int,
                        ) implies registry.entries@[xbld@[r0 * 128 + c0] as int].known
                            && origin_resolved(
                            xbld@,
                            registry.entries@[xbld@[r0 * 128 + c0] as int].network,
                            xbld@[r0 * 128 + c0],
                            registry.entries@[xbld@[r0 * 128 + c0] as int].size as int,
                            attachments@,
                            holes@,
                            networks@,
                            r0,
                            c0,
                        ) by {
                            if r0 * 128 + c0 == bound {
                                assert(r0 == row && c0 == col);
                            }
                        }
                    }
                }
            } else {
                let entry = registry.get(building_id);
                let claim = entry.groundcover || (entry.network && !entry.highway_2x2);
                if entry.groundcover || (entry.network && !entry.highway_2x2) {
                    let h = arena.len();
                    let size = entry.size as usize;
                    arena.push(Building::new(building_id, (row, col), entry.name.clone(), size));
                    if entry.groundcover {
                        groundcover.push(((row, col), h));
                    } else {
                        networks.push(((row, col), h));
                    }
                    attachments[idx] = Some(h);
                    proof {
                        assert(arena_ok(arena@, xbld@, *registry)) by {
                            assert(arena_entry_ok(arena@[h as int], xbld@, *registry));
                        }
                        assert(attach_ok(attachments@, arena@, xbld@)) by {
                            assert forall|r2: int, c2: int|
                                0 <= r2 < 128 && 0 <= c2 < 128 && (#[trigger] attachments@[r2 * 128
                                    + c2]) is Some implies {
                                let hh = attachments@[r2 * 128 + c2].unwrap();
                                &&& hh < arena@.len()
                                &&& arena@[hh as int].building_id == xbld@[r2 * 128 + c2]
                                &&& covers(arena@[hh as int], r2, c2)
                            } by {
                                if r2 * 128 + c2 != bound {
                                    assert(attachments@[r2 * 128 + c2] == pre_att[r2 * 128 + c2]);
                                } else {
                                    assert(r2 == row && c2 == col);
                                }
                            }
                        }
                    }
                }
                proof {
                    assert(pre_holes.is_prefix_of(holes@)) by {
                        assert(holes@.subrange(0, pre_holes.len() as int) =~= pre_holes);
                    }
                    assert(pre_nets.is_prefix_of(networks@)) by {
                        assert(networks@.subrange(0, pre_nets.len() as int) =~= pre_nets);
                    }
                    lemma_scanned_extends(
                        xbld@,
                        xzon@,
                        rotation as int,
                        *registry,
                        pre_att,
                        pre_holes,
                        pre_nets,
                        attachments@,
                        holes@,
                        networks@,
                        bound,
                    );
                    assert(scanned_resolved(
                        xbld@,
                        xzon@,
                        rotation as int,
                        *registry,
                        attachments@,
                        holes@,
                        networks@,
                        bound + 1,
                    )) by {
                        assert forall|r0: int, c0: int|
                            0 <= r0 < 128 && 0 <= c0 < 128 && r0 * 128 + c0 < bound + 1
                                && #[trigger] spec_is_origin(
                            xzon@[r0 * 128 + c0],
                            rotation as int,
                        ) implies registry.entries@[xbld@[r0 * 128 + c0] as int].known
                            && origin_resolved(
                            xbld@,
                            registry.entries@[xbld@[r0 * 128 + c0] as int].network,
                            xbld@[r0 * 128 + c0],
                            registry.entries@[xbld@[r0 * 128 + c0] as int].size as int,
                            attachments@,
                            holes@,
                            networks@,
                            r0,
                            c0,
                        ) by {
                            if r0 * 128 + c0 == bound {
                                assert(r0 == row && c0 == col);
                                assert(!spec_is_origin(xzon@[bound], rotation as int));
                            }
                        }
                    }
                }
            }
            col = col + 1;
        }
        row = row + 1;
    }

    let p = Placement { arena, buildings, networks, groundcover, attachments, holes };
    proof {
        assert(!has_unknown_origin(xbld@, xzon@, rotation as int, *registry)) by {
            if has_unknown_origin(xbld@, xzon@, rotation as int, *registry) {
                let (r0, c0) = choose|r0: int, c0: int|
                    0 <= r0 < 128 && 0 <= c0 < 128 && #[trigger] spec_is_origin(
                        xzon@[r0 * 128 + c0],
                        rotation as int,
                    ) && !registry.entries@[xbld@[r0 * 128 + c0] as int].known;
                assert(r0 * 128 + c0 < 16384);
            }
        }
    }
    Ok(p)
}


/// No tile is attached to two buildings: a tile's attachment names exactly
/// one arena entry.
pub proof fn lemma_no_tile_claimed_twice(p: Placement, idx: int, h1: usize, h2: usize)
    requires
        0 <= idx < p.attachments@.len(),
        p.attachments@[idx] == Some(h1),
        p.attachments@[idx] == Some(h2),
    ensures
        h1 == h2,
{
}

/// Footprint containment: when no two placed buildings overlap, every tile
/// of a placed building's clamped footprint either is attached to that very
/// building (when it carries the building's id) or is logged as a hole.
pub proof fn lemma_footprint_containment(
    p: Placement,
    xbld: Seq<u8>,
    xzon: Seq<u8>,
    rotation: int,
    reg: BuildingRegistry,
    h0: int,
    r: int,
    c: int,
)
    requires
        placement_wf(p, xbld, reg),
        all_origins_resolved(p, xbld, xzon, rotation, reg),
        0 <= h0 < p.arena@.len(),
        spec_is_origin(
            xzon[p.arena@[h0].tile_coords.0 * 128 + p.arena@[h0].tile_coords.1],
            rotation,
        ),
        !reg.entries@[p.arena@[h0].building_id as int].network,
        forall|ha: int, hb: int, ra: int, ca: int|
            0 <= ha < p.arena@.len() && 0 <= hb < p.arena@.len() && #[trigger] covers(
                p.arena@[ha],
                ra,
                ca,
            ) && #[trigger] covers(p.arena@[hb], ra, ca) ==> ha == hb,
        in_clamped_footprint(
            p.arena@[h0].tile_coords.0 as int,
            p.arena@[h0].tile_coords.1 as int,
            p.arena@[h0].size as int,
            r,
            c,
        ),
    ensures
        xbld[r * 128 + c] == p.arena@[h0].building_id ==> p.attachments@[r * 128 + c] == Some(
            h0 as usize,
        ),
        xbld[r * 128 + c] != p.arena@[h0].building_id ==> has_coord(p.holes@, r, c),
{
    let b = p.arena@[h0];
    let r0 = b.tile_coords.0 as int;
    let c0 = b.tile_coords.1 as int;
    assert(arena_entry_ok(b, xbld, reg));
    assert(0 <= r0 < 128 && 0 <= c0 < 128);
    assert(spec_is_origin(xzon[r0 * 128 + c0], rotation));
    assert(origin_resolved(
        xbld,
        reg.entries@[xbld[r0 * 128 + c0] as int].network,
        xbld[r0 * 128 + c0],
        reg.entries@[xbld[r0 * 128 + c0] as int].size as int,
        p.attachments@,
        p.holes@,
        p.networks@,
        r0,
        c0,
    ));
    assert(xbld[r0 * 128 + c0] == b.building_id);
    assert(reg.entries@[b.building_id as int].size == b.size);
    assert(fp_cell_done(
        xbld,
        false,
        b.building_id,
        p.attachments@,
        p.holes@,
        p.networks@,
        r,
        c,
    ));
    assert(r0 <= r < 127 && 0 <= c <= c0);
    if xbld[r * 128 + c] == b.building_id {
        assert(p.attachments@[r * 128 + c] is Some);
        let h = p.attachments@[r * 128 + c].unwrap();
        assert(h < p.arena@.len() && covers(p.arena@[h as int], r, c));
        assert(covers(p.arena@[h0], r, c));
        assert(h == h0);
    }
}

} // verus!
