//! One tile of the city grid and its decoded per-tile fields.

use vstd::prelude::*;

use crate::bit_flags::BitFlags;

verus! {

/// One tile, identified by its (row, column) coordinates. A tile that
/// belongs to a building holds the handle of that building in the city's
/// building arena, so that every footprint tile shares one instance.
#[derive(Debug)]
pub struct Tile {
    pub coordinates: (usize, usize),
    pub altitude_tunnel: u32,
    pub is_water: bool,
    pub altitude_unknown: u32,
    pub altitude: u32,
    pub terrain: u8,
    /// Handle into the city's building arena, if a building claims this tile.
    pub building: Option<usize>,
    /// The top four bits of the zone byte as a binary digit string.
    pub zone_corners: String,
    pub zone: u32,
    pub underground: u8,
    /// Index into the label list, or a past-end sentinel meaning "no text".
    pub text_pointer: i32,
    pub bit_flags: Option<BitFlags>,
}

impl Tile {
    /// A blank tile, before any plane has been decoded into it.
    pub fn new() -> (r: Self)
        ensures
            r.coordinates == (0usize, 0usize),
            r.altitude_tunnel == 0,
            r.is_water == false,
            r.altitude_unknown == 0,
            r.altitude == 0,
            r.terrain == 0,
            r.building is None,
            r.zone_corners@ == Seq::<char>::empty(),
            r.zone == 0,
            r.underground == 0,
            r.text_pointer == -1,
            r.bit_flags is None,
    {
        Tile {
            coordinates: (0, 0),
            altitude_tunnel: 0,
            is_water: false,
            altitude_unknown: 0,
            altitude: 0,
            terrain: 0,
            building: None,
            zone_corners: String::new(),
            zone: 0,
            underground: 0,
            text_pointer: -1,
            bit_flags: None,
        }
    }

    pub fn set_coordinates(&mut self, value: (usize, usize))
        ensures
            *final(self) == (Tile { coordinates: value, ..*old(self) }),
    {
        self.coordinates = value;
    }

    pub fn set_altitude(&mut self, value: u32)
        ensures
            *final(self) == (Tile { altitude: value, ..*old(self) }),
    {
        self.altitude = value;
    }

    pub fn set_altitude_unknown(&mut self, value: u32)
        ensures
            *final(self) == (Tile { altitude_unknown: value, ..*old(self) }),
    {
        self.altitude_unknown = value;
    }

    pub fn set_altitude_tunnel(&mut self, value: u32)
        ensures
            *final(self) == (Tile { altitude_tunnel: value, ..*old(self) }),
    {
        self.altitude_tunnel = value;
    }

    pub fn set_is_water(&mut self, value: bool)
        ensures
            *final(self) == (Tile { is_water: value, ..*old(self) }),
    {
        self.is_water = value;
    }

    pub fn terrain(&self) -> (r: &u8)
        ensures
            *r == self.terrain,
    {
        &self.terrain
    }

    pub fn set_terrain(&mut self, value: u8)
        ensures
            *final(self) == (Tile { terrain: value, ..*old(self) }),
    {
        self.terrain = value;
    }

    pub fn zone_corners(&self) -> (r: &str)
        ensures
            r@ == self.zone_corners@,
    {
        self.zone_corners.as_str()
    }

    pub fn set_zone_corners(&mut self, value: String)
        ensures
            *final(self) == (Tile { zone_corners: value, ..*old(self) }),
    {
        self.zone_corners = value;
    }

    pub fn zone(&self) -> (r: &u32)
        ensures
            *r == self.zone,
    {
        &self.zone
    }

    pub fn set_zone(&mut self, value: u32)
        ensures
            *final(self) == (Tile { zone: value, ..*old(self) }),
    {
        self.zone = value;
    }

    pub fn underground(&self) -> (r: &u8)
        ensures
            *r == self.underground,
    {
        &self.underground
    }

    pub fn set_underground(&mut self, value: u8)
        ensures
            *final(self) == (Tile { underground: value, ..*old(self) }),
    {
        self.underground = value;
    }

    pub fn text_pointer(&self) -> (r: &i32)
        ensures
            *r == self.text_pointer,
    {
        &self.text_pointer
    }

    pub fn set_text_pointer(&mut self, value: u8)
        ensures
            *final(self) == (Tile { text_pointer: value as i32, ..*old(self) }),
    {
        self.text_pointer = value as i32;
    }

    pub fn set_bit_flags(&mut self, value: BitFlags)
        ensures
            *final(self) == (Tile { bit_flags: Some(value), ..*old(self) }),
    {
        self.bit_flags = Some(value);
    }

    pub fn bit_flags(&self) -> (r: &Option<BitFlags>)
        ensures
            *r == self.bit_flags,
    {
        &self.bit_flags
    }

    pub fn building(&self) -> (r: &Option<usize>)
        ensures
            *r == self.building,
    {
        &self.building
    }

    pub fn set_building(&mut self, value: usize)
        ensures
            *final(self) == (Tile { building: Some(value), ..*old(self) }),
    {
        self.building = Some(value);
    }
}

} // verus!
