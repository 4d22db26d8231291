//! One placed building, network piece or groundcover patch. Every tile of a
//! multi-tile footprint refers to the same instance through its handle in the
//! city's building arena.

use vstd::prelude::*;

verus! {

/// One building instance, anchored at its footprint origin tile.
#[derive(Debug)]
pub struct Building {
    pub building_id: u8,
    /// The (row, column) of the footprint origin.
    pub tile_coords: (usize, usize),
    /// Display name from the building lookup.
    pub name: String,
    /// Footprint side length from the building lookup, 1 to 3.
    pub size: usize,
}

impl Building {
    /// Builds a building record from its id, its origin tile and what the
    /// building lookup reported for the id.
    pub fn new(building_id: u8, coords: (usize, usize), name: String, size: usize) -> (r: Self)
        ensures
            r.building_id == building_id,
            r.tile_coords == coords,
            r.name@ == name@,
            r.size == size,
    {
        Building { building_id, tile_coords: coords, name, size }
    }
}

} // verus!
