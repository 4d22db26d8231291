//! One history graph: yearly, decade and century series of signed values.

use vstd::prelude::*;

use crate::sc_util;

verus! {

/// One of the sixteen history graphs: 12 yearly values, then 20 decade
/// values, then 20 century values, each a signed 32-bit big-endian integer.
#[derive(Debug)]
pub struct Graph {
    pub one_year: Vec<i32>,
    pub ten_years: Vec<i32>,
    pub hundred_years: Vec<i32>,
}

/// The signed value of the four bytes at `off`.
pub open spec fn int_at(b: Seq<u8>, off: int) -> int {
    sc_util::be32_signed(b[off], b[off + 1], b[off + 2], b[off + 3])
}

impl Graph {
    /// Decodes one 208-byte graph region: 12 yearly, 20 decade and 20
    /// century integers at sequential offsets.
    pub fn parse_graph(raw_graphs: &[u8]) -> (r: Self)
        requires
            raw_graphs@.len() >= 208,
        ensures
            r.one_year@.len() == 12,
            r.ten_years@.len() == 20,
            r.hundred_years@.len() == 20,
            forall|k: int| 0 <= k < 12 ==> r.one_year@[k] == int_at(raw_graphs@, 4 * k),
            forall|k: int| 0 <= k < 20 ==> r.ten_years@[k] == int_at(raw_graphs@, 48 + 4 * k),
            forall|k: int| 0 <= k < 20 ==> r.hundred_years@[k] == int_at(raw_graphs@, 128 + 4 * k),
    {
        let mut one_year: Vec<i32> = Vec::new();
        let mut ten_years: Vec<i32> = Vec::new();
        let mut hundred_years: Vec<i32> = Vec::new();

        let mut k: usize = 0;
        while k < 12
            invariant
                raw_graphs@.len() >= 208,
                k <= 12,
                one_year@.len() == k,
                forall|m: int| 0 <= m < k ==> one_year@[m] == int_at(raw_graphs@, 4 * m),
            decreases 12 - k,
        {
            let off = 4 * k;
            let chunk = [raw_graphs[off], raw_graphs[off + 1], raw_graphs[off + 2], raw_graphs[off
                + 3]];
            one_year.push(sc_util::parse_int32(&chunk));
            k = k + 1;
        }

        let mut k: usize = 0;
        while k < 20
            invariant
                raw_graphs@.len() >= 208,
                k <= 20,
                ten_years@.len() == k,
                forall|m: int| 0 <= m < k ==> ten_years@[m] == int_at(raw_graphs@, 48 + 4 * m),
            decreases 20 - k,
        {
            let off = 48 + 4 * k;
            let chunk = [raw_graphs[off], raw_graphs[off + 1], raw_graphs[off + 2], raw_graphs[off
                + 3]];
            ten_years.push(sc_util::parse_int32(&chunk));
            k = k + 1;
        }

        let mut k: usize = 0;
        while k < 20
            invariant
                raw_graphs@.len() >= 208,
                k <= 20,
                hundred_years@.len() == k,
                forall|m: int| 0 <= m < k ==> hundred_years@[m] == int_at(raw_graphs@, 128 + 4 * m),
            decreases 20 - k,
        {
            let off = 128 + 4 * k;
            let chunk = [raw_graphs[off], raw_graphs[off + 1], raw_graphs[off + 2], raw_graphs[off
                + 3]];
            hundred_years.push(sc_util::parse_int32(&chunk));
            k = k + 1;
        }

        Graph { one_year, ten_years, hundred_years }
    }
}

} // verus!
