//! Coarse square grids of per-area simulation values (traffic, pollution,
//! land value, crime, police, fire, density, growth). A grid of side 64 maps
//! 4 full-resolution tiles to one cell, a grid of side 32 maps 16 to one.

use vstd::prelude::*;

verus! {

/// One coarse grid, stored row-major.
#[derive(Clone, Debug)]
pub struct Minimap {
    pub name: String,
    pub data: Vec<u8>,
    pub size: usize,
}

impl Minimap {
    /// The grid is square with the expected side and every cell stored.
    pub open spec fn wf(&self) -> bool {
        &&& (self.size == 32 || self.size == 64)
        &&& self.data@.len() == self.size * self.size
    }

    /// How many full-resolution coordinates map to one cell side.
    pub open spec fn spec_factor(&self) -> int {
        if self.size == 64 {
            2
        } else {
            4
        }
    }

    /// The value stored for full-resolution coordinates `(x, y)`.
    pub open spec fn spec_scaled(&self, x: int, y: int) -> u8 {
        self.data@[(x / self.spec_factor()) * self.size + y / self.spec_factor()]
    }

    /// An all-zero grid of the given side.
    pub fn new(name: String, size: usize) -> (r: Self)
        requires
            size == 32 || size == 64,
        ensures
            r.wf(),
            r.size == size,
            r.name@ == name@,
            forall|i: int| 0 <= i < r.data@.len() ==> r.data@[i] == 0,
    {
        let data = vec![0u8; size * size];
        Minimap { name, size, data }
    }

    /// Divides full-resolution coordinates down to grid coordinates.
    fn convert_xy(&self, key: (usize, usize)) -> (r: (usize, usize))
        ensures
            r.0 == key.0 as int / self.spec_factor(),
            r.1 == key.1 as int / self.spec_factor(),
    {
        let (x, y) = key;
        let d: usize = if self.size == 64 {
            2
        } else {
            4
        };
        (x / d, y / d)
    }

    /// Reads the cell covering the full-resolution coordinates `key`.
    pub fn get_scaled(&self, key: (usize, usize)) -> (r: &u8)
        requires
            self.wf(),
            key.0 as int / self.spec_factor() < self.size,
            key.1 as int / self.spec_factor() < self.size,
    ensures
            *r == self.spec_scaled(key.0 as int, key.1 as int),
    {
        let new_key = self.convert_xy(key);
        proof {
            assert(new_key.0 * self.size + new_key.1 < self.size * self.size && self.size
                * self.size <= 4096) by (nonlinear_arith)
                requires
                    new_key.0 < self.size,
                    new_key.1 < self.size,
                    1 <= self.size <= 64,
            ;
        }
        &self.data[new_key.0 * self.size + new_key.1]
    }

    /// Writes the cell covering the full-resolution coordinates `key`.
    pub fn set_scaled(&mut self, key: (usize, usize), item: u8)
        requires
            old(self).wf(),
            key.0 as int / old(self).spec_factor() < old(self).size,
            key.1 as int / old(self).spec_factor() < old(self).size,
        ensures
            final(self).wf(),
            final(self).size == old(self).size,
            final(self).name == old(self).name,
            final(self).data@ == old(self).data@.update(
                (key.0 as int / old(self).spec_factor()) * old(self).size + key.1 as int / old(
                    self,
                ).spec_factor(),
                item,
            ),
    {
        let new_key = self.convert_xy(key);
        self.set_item(new_key, item);
    }

    /// Writes the cell at grid coordinates `key`.
    pub fn set_item(&mut self, key: (usize, usize), value: u8)
        requires
            old(self).wf(),
            key.0 < old(self).size,
            key.1 < old(self).size,
        ensures
            final(self).wf(),
            final(self).size == old(self).size,
            final(self).name == old(self).name,
            final(self).data@ == old(self).data@.update(
                key.0 * old(self).size + key.1,
                value,
            ),
    {
        proof {
            assert(key.0 * self.size + key.1 < self.size * self.size && self.size * self.size
                <= 4096) by (nonlinear_arith)
                requires
                    key.0 < self.size,
                    key.1 < self.size,
                    1 <= self.size <= 64,
            ;
        }
        let idx = key.0 * self.size + key.1;
        self.data[idx] = value;
    }

    /// Reads the cell at grid coordinates `key`.
    fn get_item(&self, key: (usize, usize)) -> (r: &u8)
        requires
            self.wf(),
            key.0 < self.size,
            key.1 < self.size,
        ensures
            *r == self.data@[key.0 * self.size + key.1],
    {
        proof {
            assert(key.0 * self.size + key.1 < self.size * self.size && self.size * self.size
                <= 4096) by (nonlinear_arith)
                requires
                    key.0 < self.size,
                    key.1 < self.size,
                    1 <= self.size <= 64,
            ;
        }
        &self.data[key.0 * self.size + key.1]
    }
}

} // verus!
