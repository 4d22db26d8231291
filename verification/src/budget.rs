//! The budget sub-structure of the parameter block: 20 ordinance flags, 50
//! bond amounts and 16 named sub-budgets, each read from its own fixed
//! absolute offset in the 4800-byte parameter block.

use vstd::prelude::*;

use crate::graph::int_at;
use crate::sc_util;

verus! {

/// One sub-budget: the current count and funding, one field of unknown
/// meaning, and twelve months of count and funding pairs.
#[derive(Debug, PartialEq, Eq, Structural)]
pub struct SubBudget {
    pub current_count: usize,
    pub current_funding: usize,
    pub unknown: usize,
    pub jan_count: usize,
    pub jan_funding: usize,
    pub feb_count: usize,
    pub feb_funding: usize,
    pub mar_count: usize,
    pub mar_funding: usize,
    pub apr_count: usize,
    pub apr_funding: usize,
    pub may_count: usize,
    pub may_funding: usize,
    pub jun_count: usize,
    pub jun_funding: usize,
    pub jul_count: usize,
    pub jul_funding: usize,
    pub aug_count: usize,
    pub aug_funding: usize,
    pub sep_count: usize,
    pub sep_funding: usize,
    pub oct_count: usize,
    pub oct_funding: usize,
    pub nov_count: usize,
    pub nov_funding: usize,
    pub dec_count: usize,
    pub dec_funding: usize,
}

/// The sub-budget decoded from the 108 bytes at `off`: 27 sequential signed
/// 32-bit integers, each stored as an unsigned machine word.
pub open spec fn spec_sub_budget(b: Seq<u8>, off: int) -> SubBudget {
    SubBudget {
        current_count: int_at(b, off + 0) as usize,
        current_funding: int_at(b, off + 4) as usize,
        unknown: int_at(b, off + 8) as usize,
        jan_count: int_at(b, off + 12) as usize,
        jan_funding: int_at(b, off + 16) as usize,
        feb_count: int_at(b, off + 20) as usize,
        feb_funding: int_at(b, off + 24) as usize,
        mar_count: int_at(b, off + 28) as usize,
        mar_funding: int_at(b, off + 32) as usize,
        apr_count: int_at(b, off + 36) as usize,
        apr_funding: int_at(b, off + 40) as usize,
        may_count: int_at(b, off + 44) as usize,
        may_funding: int_at(b, off + 48) as usize,
        jun_count: int_at(b, off + 52) as usize,
        jun_funding: int_at(b, off + 56) as usize,
        jul_count: int_at(b, off + 60) as usize,
        jul_funding: int_at(b, off + 64) as usize,
        aug_count: int_at(b, off + 68) as usize,
        aug_funding: int_at(b, off + 72) as usize,
        sep_count: int_at(b, off + 76) as usize,
        sep_funding: int_at(b, off + 80) as usize,
        oct_count: int_at(b, off + 84) as usize,
        oct_funding: int_at(b, off + 88) as usize,
        nov_count: int_at(b, off + 92) as usize,
        nov_funding: int_at(b, off + 96) as usize,
        dec_count: int_at(b, off + 100) as usize,
        dec_funding: int_at(b, off + 104) as usize,
    }
}

/// Reads one signed 32-bit integer and widens it to a machine word.
fn read_usize(b: &[u8], off: usize) -> (r: usize)
    requires
        off + 4 <= b@.len(),
        off + 4 <= 4800,
    ensures
        r == int_at(b@, off as int) as usize,
{
    let chunk = [b[off], b[off + 1], b[off + 2], b[off + 3]];
    let v = sc_util::parse_int32(&chunk);
    #[verifier::truncate] (v as usize)
}

/// Decodes the 27 fields of one sub-budget at absolute offset `off`.
fn parse_sub_budget(raw_misc_data: &[u8], off: usize) -> (r: SubBudget)
    requires
        raw_misc_data@.len() == 4800,
        off + 108 <= 4800,
    ensures
        r == spec_sub_budget(raw_misc_data@, off as int),
{
    SubBudget {
        current_count: read_usize(raw_misc_data, off + 0),
        current_funding: read_usize(raw_misc_data, off + 4),
        unknown: read_usize(raw_misc_data, off + 8),
        jan_count: read_usize(raw_misc_data, off + 12),
        jan_funding: read_usize(raw_misc_data, off + 16),
        feb_count: read_usize(raw_misc_data, off + 20),
        feb_funding: read_usize(raw_misc_data, off + 24),
        mar_count: read_usize(raw_misc_data, off + 28),
        mar_funding: read_usize(raw_misc_data, off + 32),
        apr_count: read_usize(raw_misc_data, off + 36),
        apr_funding: read_usize(raw_misc_data, off + 40),
        may_count: read_usize(raw_misc_data, off + 44),
        may_funding: read_usize(raw_misc_data, off + 48),
        jun_count: read_usize(raw_misc_data, off + 52),
        jun_funding: read_usize(raw_misc_data, off + 56),
        jul_count: read_usize(raw_misc_data, off + 60),
        jul_funding: read_usize(raw_misc_data, off + 64),
        aug_count: read_usize(raw_misc_data, off + 68),
        aug_funding: read_usize(raw_misc_data, off + 72),
        sep_count: read_usize(raw_misc_data, off + 76),
        sep_funding: read_usize(raw_misc_data, off + 80),
        oct_count: read_usize(raw_misc_data, off + 84),
        oct_funding: read_usize(raw_misc_data, off + 88),
        nov_count: read_usize(raw_misc_data, off + 92),
        nov_funding: read_usize(raw_misc_data, off + 96),
        dec_count: read_usize(raw_misc_data, off + 100),
        dec_funding: read_usize(raw_misc_data, off + 104),
    }
}

/// The sixteen named sub-budgets.
#[derive(Debug, PartialEq, Eq, Structural)]
pub struct BudgetItems {
    pub residential: SubBudget,
    pub commercial: SubBudget,
    pub industrial: SubBudget,
    pub ordinances: SubBudget,
    pub bonds: SubBudget,
    pub police: SubBudget,
    pub fire: SubBudget,
    pub health: SubBudget,
    pub schools: SubBudget,
    pub colleges: SubBudget,
    pub road: SubBudget,
    pub hiway: SubBudget,
    pub bridge: SubBudget,
    pub rail: SubBudget,
    pub subway: SubBudget,
    pub tunnel: SubBudget,
}

/// The budget decoded from the parameter block.
#[derive(Debug)]
pub struct Budget {
    pub budget_items: BudgetItems,
    /// 50 bond amounts.
    pub bonds: Vec<i32>,
    /// 20 ordinance booleans, most significant bit of the flag word first.
    pub ordinance_flags: Vec<u32>,
}

/// The budget `r` holds exactly what the parameter block bytes `b` say: the
/// ordinance flag word at 0x0FA0 read most significant bit first, the 50
/// bonds at 0x0610, and the 16 sub-budgets at their fixed offsets.
pub open spec fn budget_decoded(r: Budget, b: Seq<u8>) -> bool {
    &&& (r.ordinance_flags@.len() == 20)
    &&& (forall|i: int|
                0 <= i < 20 ==> r.ordinance_flags@[i] == (if (sc_util::be32(
                    b[0x0FA0],
                    b[0x0FA1],
                    b[0x0FA2],
                    b[0x0FA3],
                ) as nat / sc_util::two_pow((31 - i) as nat)) % 2 == 1 {
                    1u32
                } else {
                    0u32
                }))
    &&& (r.bonds@.len() == 50)
    &&& (forall|k: int| 0 <= k < 50 ==> r.bonds@[k] == int_at(b, 0x0610 + 4 * k))
    &&& (r.budget_items.residential == spec_sub_budget(b, 0x77c))
    &&& (r.budget_items.commercial == spec_sub_budget(b, 0x7e8))
    &&& (r.budget_items.industrial == spec_sub_budget(b, 0x854))
    &&& (r.budget_items.ordinances == spec_sub_budget(b, 0x8c0))
    &&& (r.budget_items.bonds == spec_sub_budget(b, 0x92c))
    &&& (r.budget_items.police == spec_sub_budget(b, 0x998))
    &&& (r.budget_items.fire == spec_sub_budget(b, 0xa04))
    &&& (r.budget_items.health == spec_sub_budget(b, 0xa70))
    &&& (r.budget_items.schools == spec_sub_budget(b, 0xadc))
    &&& (r.budget_items.colleges == spec_sub_budget(b, 0xb48))
    &&& (r.budget_items.road == spec_sub_budget(b, 0xbb4))
    &&& (r.budget_items.hiway == spec_sub_budget(b, 0xc20))
    &&& (r.budget_items.bridge == spec_sub_budget(b, 0xc8c))
    &&& (r.budget_items.rail == spec_sub_budget(b, 0xcf8))
    &&& (r.budget_items.subway == spec_sub_budget(b, 0xd64))
    &&& (r.budget_items.tunnel == spec_sub_budget(b, 0xdd0))
}

impl Budget {
    /// Parses the budget data out of the 4800-byte parameter block.
    #[verifier::rlimit(100)]
    pub fn from_misc_data(raw_misc_data: &[u8]) -> (r: Self)
        requires
            raw_misc_data@.len() == 4800,
        ensures
            budget_decoded(r, raw_misc_data@),
    {
        let ordinance_chunk = [raw_misc_data[0x0FA0], raw_misc_data[0x0FA1], raw_misc_data[0x0FA2], raw_misc_data[0x0FA3]];
        let word = sc_util::parse_uint32(&ordinance_chunk);
        let bits = sc_util::int_to_bitstring(word, 32);
        proof {
            sc_util::lemma_two_pow_32();
            sc_util::lemma_padded_digits(word as nat, 32);
        }
        let mut ordinance_flags: Vec<u32> = Vec::new();
        let mut i: usize = 0;
        while i < 20
            invariant
                i <= 20,
                bits@ == sc_util::zero_pad(sc_util::bin_digits(word as nat), 32),
                bits@.len() == 32,
                ordinance_flags@.len() == i,
                forall|m: int|
                    0 <= m < i ==> ordinance_flags@[m] == (if ((word as nat) / sc_util::two_pow(
                        (31 - m) as nat,
                    )) % 2 == 1 {
                        1u32
                    } else {
                        0u32
                    }),
                forall|m: int|
                    0 <= m < 32 ==> #[trigger] bits@[m] == (if ((word as nat) / sc_util::two_pow(
                        (31 - m) as nat,
                    )) % 2 == 1 {
                        '1'
                    } else {
                        '0'
                    }),
            decreases 20 - i,
        {
            let c = bits.as_str().get_char(i);
            ordinance_flags.push(if c == '1' {
                1
            } else {
                0
            });
            i = i + 1;
        }

        let mut bonds: Vec<i32> = Vec::new();
        let mut k: usize = 0;
        while k < 50
            invariant
                raw_misc_data@.len() == 4800,
                k <= 50,
                bonds@.len() == k,
                forall|m: int| 0 <= m < k ==> bonds@[m] == int_at(raw_misc_data@, 0x0610 + 4 * m),
            decreases 50 - k,
        {
            let off = 0x0610 + 4 * k;
            let chunk = [raw_misc_data[off], raw_misc_data[off + 1], raw_misc_data[off + 2], raw_misc_data[off + 3]];
            bonds.push(sc_util::parse_int32(&chunk));
            k = k + 1;
        }

        let budget_items = BudgetItems {
            residential: parse_sub_budget(raw_misc_data, 0x77c),
            commercial: parse_sub_budget(raw_misc_data, 0x7e8),
            industrial: parse_sub_budget(raw_misc_data, 0x854),
            ordinances: parse_sub_budget(raw_misc_data, 0x8c0),
            bonds: parse_sub_budget(raw_misc_data, 0x92c),
            police: parse_sub_budget(raw_misc_data, 0x998),
            fire: parse_sub_budget(raw_misc_data, 0xa04),
            health: parse_sub_budget(raw_misc_data, 0xa70),
            schools: parse_sub_budget(raw_misc_data, 0xadc),
            colleges: parse_sub_budget(raw_misc_data, 0xb48),
            road: parse_sub_budget(raw_misc_data, 0xbb4),
            hiway: parse_sub_budget(raw_misc_data, 0xc20),
            bridge: parse_sub_budget(raw_misc_data, 0xc8c),
            rail: parse_sub_budget(raw_misc_data, 0xcf8),
            subway: parse_sub_budget(raw_misc_data, 0xd64),
            tunnel: parse_sub_budget(raw_misc_data, 0xdd0),
        };

        Budget { budget_items, bonds, ordinance_flags }
    }
}

} // verus!
