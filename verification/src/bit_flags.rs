//! The eight per-tile status booleans packed in one XBIT byte, tested
//! most-significant bit first.

use vstd::prelude::*;

use crate::sc_util;

verus! {

/// Whether bit `index` of a binary digit string is set.
pub fn bit_as_bool(chars: &str, index: usize) -> (r: bool)
    requires
        index < chars@.len(),
        chars@[index as int] == '0' || chars@[index as int] == '1',
    ensures
        r == (chars@[index as int] == '1'),
{
    chars.get_char(index) == '1'
}

/// The status flags of one tile, most significant bit first.
#[derive(Clone, Copy, Debug, PartialEq, Eq, Structural)]
pub struct BitFlags {
    /// Does this tile need power?
    pub powerable: bool,
    /// Is this tile receiving power?
    pub powered: bool,
    /// Does this tile have pipes underneath it?
    pub piped: bool,
    /// Is this tile receiving water?
    pub watered: bool,
    /// Land value flag of this tile.
    pub xval: bool,
    /// Is this tile covered in water?
    pub water: bool,
    /// Should this tile be rotated?
    pub rotate: bool,
    /// Is this tile salt water?
    pub salt: bool,
}

/// The flags a given byte decodes to, most significant bit first.
pub open spec fn spec_bit_flags(flags: u8) -> BitFlags {
    BitFlags {
        powerable: (flags as nat / 128) % 2 == 1,
        powered: (flags as nat / 64) % 2 == 1,
        piped: (flags as nat / 32) % 2 == 1,
        watered: (flags as nat / 16) % 2 == 1,
        xval: (flags as nat / 8) % 2 == 1,
        water: (flags as nat / 4) % 2 == 1,
        rotate: (flags as nat / 2) % 2 == 1,
        salt: (flags as nat) % 2 == 1,
    }
}

impl BitFlags {
    /// The flags as a binary digit string, most significant bit first.
    pub open spec fn spec_string(&self) -> Seq<char> {
        seq![
            if self.powerable { '1' } else { '0' },
            if self.powered { '1' } else { '0' },
            if self.piped { '1' } else { '0' },
            if self.watered { '1' } else { '0' },
            if self.xval { '1' } else { '0' },
            if self.water { '1' } else { '0' },
            if self.rotate { '1' } else { '0' },
            if self.salt { '1' } else { '0' },
        ]
    }

    /// Renders the flags as a string of eight binary digits.
    pub fn to_string(&self) -> (r: String)
        ensures
            r@ == self.spec_string(),
    {
        let mut r = String::new();
        sc_util::push_char(&mut r, if self.powerable {
            '1'
        } else {
            '0'
        });
        sc_util::push_char(&mut r, if self.powered {
            '1'
        } else {
            '0'
        });
        sc_util::push_char(&mut r, if self.piped {
            '1'
        } else {
            '0'
        });
        sc_util::push_char(&mut r, if self.watered {
            '1'
        } else {
            '0'
        });
        sc_util::push_char(&mut r, if self.xval {
            '1'
        } else {
            '0'
        });
        sc_util::push_char(&mut r, if self.water {
            '1'
        } else {
            '0'
        });
        sc_util::push_char(&mut r, if self.rotate {
            '1'
        } else {
            '0'
        });
        sc_util::push_char(&mut r, if self.salt {
            '1'
        } else {
            '0'
        });
        proof {
            assert(r@ =~= self.spec_string());
        }
        r
    }

    /// The integer the flags encode, most significant bit first.
    pub fn to_u32(&self) -> (r: u32)
        ensures
            r == sc_util::bits_value(self.spec_string()),
    {
        let s = self.to_string();
        sc_util::parse_bitstring(s.as_str())
    }

    /// Decodes the eight flags from one byte, most significant bit first.
    pub fn from_byte(flags: u8) -> (r: Self)
        ensures
            r == spec_bit_flags(flags),
    {
        let flags_string = sc_util::int_to_bitstring(flags as u32, 8);
        let flags_str = flags_string.as_str();
        proof {
            lemma_byte_bitstring(flags);
        }
        BitFlags {
            powerable: bit_as_bool(flags_str, 0),
            powered: bit_as_bool(flags_str, 1),
            piped: bit_as_bool(flags_str, 2),
            watered: bit_as_bool(flags_str, 3),
            xval: bit_as_bool(flags_str, 4),
            water: bit_as_bool(flags_str, 5),
            rotate: bit_as_bool(flags_str, 6),
            salt: bit_as_bool(flags_str, 7),
        }
    }
}

impl From<u8> for BitFlags {
    /// Decodes the eight flags from one byte, most significant bit first.
    fn from(flags: u8) -> (r: Self) {
        BitFlags::from_byte(flags)
    }
}

impl vstd::std_specs::convert::FromSpecImpl<u8> for BitFlags {
    open spec fn obeys_from_spec() -> bool {
        true
    }

    open spec fn from_spec(flags: u8) -> Self {
        spec_bit_flags(flags)
    }
}

/// The zero-padded 8-digit binary string of a byte, character by character.
#[verifier::rlimit(50)]
pub proof fn lemma_byte_bitstring(b: u8)
    ensures
        sc_util::zero_pad(sc_util::bin_digits(b as nat), 8) == spec_bit_flags(b).spec_string(),
{
    let s = sc_util::zero_pad(sc_util::bin_digits(b as nat), 8);
    reveal_with_fuel(sc_util::two_pow, 9);
    assert((b as nat) < 256);
    sc_util::lemma_padded_digits(b as nat, 8);
    let f = spec_bit_flags(b);
    assert forall|i: int| 0 <= i < 8 implies s[i] == f.spec_string()[i] by {
        assert(s[i] == (if ((b as nat) / sc_util::two_pow((7 - i) as nat)) % 2 == 1 {
            '1'
        } else {
            '0'
        }));
    }
    assert(s =~= f.spec_string());
}

} // verus!
