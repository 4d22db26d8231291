//! One record of the XTHG segment; the segment layout is only partly known,
//! so the trailing bytes are kept opaque.

use vstd::prelude::*;

verus! {

/// A thing stored in the XTHG segment.
#[derive(Debug)]
pub struct Thing {
    pub thing_id: usize,
    pub rotation_1: usize,
    pub rotation_2: usize,
    pub x: usize,
    pub y: usize,
    pub data: Vec<u8>,
}

impl Thing {
    /// Parses the 12 raw bytes of one thing record.
    pub fn parse_thing(raw_thing: &[u8; 12]) -> (r: Self)
        ensures
            r.thing_id == raw_thing[0],
            r.rotation_1 == raw_thing[1],
            r.rotation_2 == raw_thing[2],
            r.x == raw_thing[3],
            r.y == raw_thing[4],
            r.data@ == raw_thing@.subrange(5, 12),
    {
        let mut data: Vec<u8> = Vec::new();
        let mut i: usize = 5;
        while i < 12
            invariant
                5 <= i <= 12,
                data@ == raw_thing@.subrange(5, i as int),
            decreases 12 - i,
        {
            data.push(raw_thing[i]);
            i = i + 1;
            proof {
                assert(data@ =~= raw_thing@.subrange(5, i as int));
            }
        }
        Thing {
            thing_id: raw_thing[0] as usize,
            rotation_1: raw_thing[1] as usize,
            rotation_2: raw_thing[2] as usize,
            x: raw_thing[3] as usize,
            y: raw_thing[4] as usize,
            data,
        }
    }
}

} // verus!
