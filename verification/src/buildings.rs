//! The building-id lookup the placement reconstruction consults. The table
//! itself (id to name, footprint size and classification) is supplied by the
//! caller; this module only fixes its shape and its invariants.

use vstd::prelude::*;

verus! {

/// What the lookup knows about one building id.
#[derive(Clone, Debug)]
pub struct BuildingEntry {
    /// Whether the id is present in the lookup at all.
    pub known: bool,
    /// Display name of the building.
    pub name: String,
    /// Footprint side length, 1 to 3.
    pub size: u8,
    /// Whether the id is a network piece (road, rail, power line, highway).
    pub network: bool,
    /// Whether the id is loose groundcover (trees, rubble, radioactivity).
    pub groundcover: bool,
    /// Whether the id is one of the 2x2 highway pieces, which are placed
    /// through the corner scan rather than recorded tile by tile.
    pub highway_2x2: bool,
}

/// The lookup, one entry per possible building id byte.
#[derive(Clone, Debug)]
pub struct BuildingRegistry {
    pub entries: Vec<BuildingEntry>,
}

impl BuildingRegistry {
    /// One entry per id; known entries carry a footprint size of 1 to 3;
    /// classified ids are known; the highway pieces are network pieces.
    pub open spec fn wf(&self) -> bool {
        &&& self.entries@.len() == 256
        &&& forall|i: int|
            0 <= i < 256 ==> (#[trigger] self.entries@[i].known ==> 1 <= self.entries@[i].size
                <= 3)
        &&& forall|i: int|
            0 <= i < 256 ==> ((#[trigger] self.entries@[i].network || self.entries@[i].groundcover)
                ==> self.entries@[i].known)
        &&& forall|i: int|
            0 <= i < 256 ==> (#[trigger] self.entries@[i].highway_2x2 ==> self.entries@[i].network)
    }

    /// A registry that knows no id at all.
    pub fn new() -> (r: Self)
        ensures
            r.wf(),
            forall|i: int| 0 <= i < 256 ==> !(#[trigger] r.entries@[i].known),
            forall|i: int| 0 <= i < 256 ==> !(#[trigger] r.entries@[i].network),
            forall|i: int| 0 <= i < 256 ==> !(#[trigger] r.entries@[i].groundcover),
    {
        let mut entries: Vec<BuildingEntry> = Vec::new();
        let mut i: usize = 0;
        while i < 256
            invariant
                i <= 256,
                entries@.len() == i,
                forall|m: int| 0 <= m < i ==> !(#[trigger] entries@[m].known),
                forall|m: int| 0 <= m < i ==> !(#[trigger] entries@[m].network),
                forall|m: int| 0 <= m < i ==> !(#[trigger] entries@[m].groundcover),
                forall|m: int| 0 <= m < i ==> !(#[trigger] entries@[m].highway_2x2),
            decreases 256 - i,
        {
            entries.push(
                BuildingEntry {
                    known: false,
                    name: String::new(),
                    size: 1,
                    network: false,
                    groundcover: false,
                    highway_2x2: false,
                },
            );
            i = i + 1;
        }
        BuildingRegistry { entries }
    }

    /// Registers what the lookup knows about one id.
    pub fn set_entry(&mut self, id: u8, entry: BuildingEntry)
        requires
            old(self).wf(),
            entry.known ==> 1 <= entry.size <= 3,
            entry.network || entry.groundcover ==> entry.known,
            entry.highway_2x2 ==> entry.network,
        ensures
            final(self).wf(),
            final(self).entries@ == old(self).entries@.update(id as int, entry),
    {
        self.entries[id as usize] = entry;
    }

    /// What the lookup knows about `id`.
    pub fn get(&self, id: u8) -> (r: &BuildingEntry)
        requires
            self.wf(),
        ensures
            *r == self.entries@[id as int],
    {
        &self.entries[id as usize]
    }
}

} // verus!
