//! Fixed-width big-endian integer parsing and binary bit-string conversions.

use vstd::prelude::*;

verus! {

/// Value of two bytes read big-endian.
pub open spec fn be16(b0: u8, b1: u8) -> int {
    b0 * 256 + b1
}

/// Value of four bytes read big-endian, unsigned.
pub open spec fn be32(b0: u8, b1: u8, b2: u8, b3: u8) -> int {
    b0 * 0x1000000 + b1 * 0x10000 + b2 * 0x100 + b3
}

/// Value of four bytes read big-endian, as a two's-complement signed integer.
pub open spec fn be32_signed(b0: u8, b1: u8, b2: u8, b3: u8) -> int {
    if be32(b0, b1, b2, b3) < 0x8000_0000 {
        be32(b0, b1, b2, b3)
    } else {
        be32(b0, b1, b2, b3) - 0x1_0000_0000
    }
}

/// Parses 4 bytes into a big endian unsigned integer.
pub fn parse_uint32(unparsed_bytes: &[u8; 4]) -> (r: u32)
    ensures
        r == be32(unparsed_bytes[0], unparsed_bytes[1], unparsed_bytes[2], unparsed_bytes[3]),
{
    (unparsed_bytes[0] as u32) * 0x1000000 + (unparsed_bytes[1] as u32) * 0x10000
        + (unparsed_bytes[2] as u32) * 0x100 + (unparsed_bytes[3] as u32)
}

/// Parses 2 bytes into a big endian unsigned integer.
pub fn parse_uint16(unparsed_bytes: &[u8; 2]) -> (r: u16)
    ensures
        r == be16(unparsed_bytes[0], unparsed_bytes[1]),
{
    (unparsed_bytes[0] as u16) * 0x100 + (unparsed_bytes[1] as u16)
}

/// Parses 1 byte into an unsigned integer.
pub fn parse_uint8(unparsed_bytes: &[u8; 1]) -> (r: u8)
    ensures
        r == unparsed_bytes[0],
{
    unparsed_bytes[0]
}

/// Mathematical power of two, used to bound bit-string values.
pub open spec fn two_pow(k: nat) -> nat
    decreases k,
{
    if k == 0 {
        1
    } else {
        2 * two_pow((k - 1) as nat)
    }
}

/// The binary digits of `n`, most significant first, with no leading zeros
/// (the empty sequence for zero).
pub open spec fn bin_digits(n: nat) -> Seq<char>
    decreases n,
{
    if n == 0 {
        Seq::empty()
    } else {
        bin_digits(n / 2).push(if n % 2 == 1 {
            '1'
        } else {
            '0'
        })
    }
}

/// `k` copies of the character `'0'`.
pub open spec fn zero_chars(k: nat) -> Seq<char> {
    Seq::new(k, |i: int| '0')
}

/// `s` left-padded with zeros to length `pad` (unchanged if already long enough).
pub open spec fn zero_pad(s: Seq<char>, pad: nat) -> Seq<char> {
    if s.len() >= pad {
        s
    } else {
        zero_chars((pad - s.len()) as nat) + s
    }
}

/// The value of a most-significant-first binary digit string.
pub open spec fn bits_value(s: Seq<char>) -> nat
    decreases s.len(),
{
    if s.len() == 0 {
        0
    } else {
        2 * bits_value(s.drop_last()) + (if s.last() == '1' {
            1nat
        } else {
            0nat
        })
    }
}

/// True when every character of `s` is a binary digit.
pub open spec fn all_binary_digits(s: Seq<char>) -> bool {
    forall|i: int| 0 <= i < s.len() ==> s[i] == '0' || s[i] == '1'
}

pub proof fn lemma_bin_digits_len(n: nat, k: nat)
    requires
        n < two_pow(k),
    ensures
        bin_digits(n).len() <= k,
    decreases k,
{
    if n == 0 {
    } else {
        assert(k > 0);
        assert(n / 2 < two_pow((k - 1) as nat)) by {
            assert(n < 2 * two_pow((k - 1) as nat));
        }
        lemma_bin_digits_len(n / 2, (k - 1) as nat);
    }
}

pub proof fn lemma_bin_digits_len_lower(n: nat)
    ensures
        n < two_pow(bin_digits(n).len()),
    decreases n,
{
    if n == 0 {
    } else {
        lemma_bin_digits_len_lower(n / 2);
    }
}

pub proof fn lemma_two_pow_32()
    ensures
        two_pow(31) == 0x8000_0000,
        two_pow(32) == 0x1_0000_0000,
{
    reveal_with_fuel(two_pow, 33);
}

pub proof fn lemma_digits_index(n: nat)
    ensures
        forall|j: int|
            0 <= j < bin_digits(n).len() ==> #[trigger] bin_digits(n)[j] == (if (n / two_pow(
                (bin_digits(n).len() - 1 - j) as nat,
            )) % 2 == 1 {
                '1'
            } else {
                '0'
            }),
    decreases n,
{
    if n == 0 {
    } else {
        lemma_digits_index(n / 2);
        let d = bin_digits(n);
        let dh = bin_digits(n / 2);
        assert(d == dh.push(if n % 2 == 1 {
            '1'
        } else {
            '0'
        }));
        assert forall|j: int|
            0 <= j < d.len() implies #[trigger] d[j] == (if (n / two_pow(
            (d.len() - 1 - j) as nat,
        )) % 2 == 1 {
            '1'
        } else {
            '0'
        }) by {
            if j == d.len() - 1 {
                assert(two_pow(0) == 1);
                assert(n / 1 == n);
            } else {
                assert(d[j] == dh[j]);
                let e = (dh.len() - 1 - j) as nat;
                assert(dh[j] == (if ((n / 2) / two_pow(e)) % 2 == 1 {
                    '1'
                } else {
                    '0'
                }));
                assert((n / 2) / two_pow(e) == n / two_pow((e + 1) as nat)) by {
                    lemma_two_pow_increases(0, e);
                    assert(two_pow(e) >= 1);
                    assert(two_pow((e + 1) as nat) == 2 * two_pow(e));
                    vstd::arithmetic::div_mod::lemma_div_denominator(
                        n as int,
                        2,
                        two_pow(e) as int,
                    );
                }
            }
        }
    }
}

/// The zero-padded binary rendering of `n` at `width` digits, digit by digit.
pub proof fn lemma_padded_digits(n: nat, width: nat)
    requires
        n < two_pow(width),
    ensures
        zero_pad(bin_digits(n), width).len() == width,
        forall|i: int|
            0 <= i < width ==> #[trigger] zero_pad(bin_digits(n), width)[i] == (if (n / two_pow(
                (width - 1 - i) as nat,
            )) % 2 == 1 {
                '1'
            } else {
                '0'
            }),
{
    lemma_bin_digits_len(n, width);
    lemma_digits_index(n);
    let d = bin_digits(n);
    let s = zero_pad(d, width);
    assert forall|i: int|
        0 <= i < width implies #[trigger] s[i] == (if (n / two_pow((width - 1 - i) as nat)) % 2
        == 1 {
        '1'
    } else {
        '0'
    }) by {
        let pad = width - d.len();
        if i < pad {
            assert(s[i] == '0');
            assert(n < two_pow((width - 1 - i) as nat)) by {
                lemma_bin_digits_len_lower(n);
                lemma_two_pow_increases(d.len() as nat, (width - 1 - i) as nat);
            }
            assert(n / two_pow((width - 1 - i) as nat) == 0) by {
                vstd::arithmetic::div_mod::lemma_basic_div(
                    n as int,
                    two_pow((width - 1 - i) as nat) as int,
                );
            }
        } else {
            assert(s[i] == d[i - pad]);
        }
    }
}

pub proof fn lemma_bin_digits_all_binary(n: nat)
    ensures
        all_binary_digits(bin_digits(n)),
    decreases n,
{
    if n == 0 {
    } else {
        lemma_bin_digits_all_binary(n / 2);
        assert forall|i: int| 0 <= i < bin_digits(n).len() implies bin_digits(n)[i] == '0'
            || bin_digits(n)[i] == '1' by {
            if i < bin_digits(n).len() - 1 {
                assert(bin_digits(n)[i] == bin_digits(n / 2)[i]);
            }
        }
    }
}

/// The zero-padded binary rendering of `n` at `width` digits has exactly
/// `width` binary digits when `n` fits.
pub proof fn lemma_padded_well_formed(n: nat, width: nat)
    requires
        n < two_pow(width),
    ensures
        zero_pad(bin_digits(n), width).len() == width,
        all_binary_digits(zero_pad(bin_digits(n), width)),
{
    lemma_bin_digits_len(n, width);
    lemma_bin_digits_all_binary(n);
    let d = bin_digits(n);
    let s = zero_pad(d, width);
    assert forall|i: int| 0 <= i < s.len() implies s[i] == '0' || s[i] == '1' by {
        let pad = width - d.len();
        if i < pad {
            assert(s[i] == '0');
        } else {
            assert(s[i] == d[i - pad]);
        }
    }
}

pub proof fn lemma_two_pow_16()
    ensures
        two_pow(8) == 0x100,
        two_pow(16) == 0x1_0000,
{
    reveal_with_fuel(two_pow, 17);
}

/// Converts an int into its binary representation as a string of 0s and 1s,
/// left-padded with zeros to length `pad`.
pub fn int_to_bitstring(value: u32, pad: usize) -> (r: String)
    ensures
        r@ == zero_pad(bin_digits(value as nat), pad as nat),
{
    let mut result = String::new();
    let mut result_len: usize = 0;
    let mut int_input = value;

    proof {
        lemma_two_pow_32();
        lemma_bin_digits_len(value as nat, 32);
    }

    while int_input > 0
        invariant
            bin_digits(int_input as nat) + result@ == bin_digits(value as nat),
            result_len == result@.len(),
            result@.len() <= bin_digits(value as nat).len(),
            bin_digits(value as nat).len() <= 32,
        decreases int_input,
    {
        let bit = int_input % 2;
        proof {
            reveal_strlit("0");
            reveal_strlit("1");
            assert(bin_digits(int_input as nat) =~= bin_digits(
                (int_input / 2) as nat,
            ) + seq![if bit == 1 { '1' } else { '0' }]);
        }
        let digit = if bit == 1 {
            String::from_str("1")
        } else {
            String::from_str("0")
        };
        result = digit.concat(result.as_str());
        result_len = result_len + 1;
        int_input = int_input / 2;
        proof {
            assert(bin_digits(int_input as nat) + result@ =~= bin_digits(value as nat));
        }
    }

    while result_len < pad
        invariant
            result@ == zero_chars((result_len - bin_digits(value as nat).len()) as nat)
                + bin_digits(value as nat),
            result_len == result@.len(),
            result_len >= bin_digits(value as nat).len(),
            result_len <= pad || result_len == bin_digits(value as nat).len(),
        decreases pad - result_len,
    {
        proof {
            reveal_strlit("0");
        }
        result = String::from_str("0").concat(result.as_str());
        result_len = result_len + 1;
        proof {
            assert(result@ =~= zero_chars(
                (result_len - bin_digits(value as nat).len()) as nat,
            ) + bin_digits(value as nat));
        }
    }
    proof {
        assert(result@ =~= zero_pad(bin_digits(value as nat), pad as nat));
    }
    result
}

/// Parses a string of binary digits, most significant first, into its value.
pub fn parse_bitstring(bit_string: &str) -> (r: u32)
    requires
        all_binary_digits(bit_string@),
        bit_string@.len() <= 32,
    ensures
        r == bits_value(bit_string@),
{
    let n = bit_string.unicode_len();
    let mut result: u32 = 0;
    let mut i: usize = 0;

    proof {
        lemma_two_pow_32();
    }

    while i < n
        invariant
            all_binary_digits(bit_string@),
            n == bit_string@.len() <= 32,
            i <= n,
            result == bits_value(bit_string@.take(i as int)),
            result < two_pow(i as nat),
            two_pow(31) == 0x8000_0000,
        decreases n - i,
    {
        let c = bit_string.get_char(i);
        proof {
            assert(bit_string@.take(i + 1).drop_last() =~= bit_string@.take(i as int));
            if i < 31 {
                lemma_two_pow_increases(i as nat, 31);
            }
            assert(two_pow((i + 1) as nat) == 2 * two_pow(i as nat));
        }
        result = result * 2 + (if c == '1' {
            1
        } else {
            0
        });
        i = i + 1;
    }
    proof {
        assert(bit_string@.take(n as int) =~= bit_string@);
    }
    result
}

pub proof fn lemma_two_pow_increases(a: nat, b: nat)
    requires
        a <= b,
    ensures
        two_pow(a) <= two_pow(b),
    decreases b,
{
    if a < b {
        lemma_two_pow_increases(a, (b - 1) as nat);
    }
}

/// Turns a sequence of bytes (must be a multiple of 4) into a list of integers.
pub fn bytes_to_int32s(input_bytes: &[u8]) -> (res: Vec<i32>)
    requires
        input_bytes@.len() % 4 == 0,
    ensures
        res@.len() == input_bytes@.len() / 4,
        forall|k: int|
            0 <= k < res@.len() ==> res@[k] == be32_signed(
                input_bytes@[4 * k],
                input_bytes@[4 * k + 1],
                input_bytes@[4 * k + 2],
                input_bytes@[4 * k + 3],
            ),
{
    let mut res: Vec<i32> = Vec::new();
    let n = input_bytes.len();
    let mut offset: usize = 0;

    while offset < n
        invariant
            n == input_bytes@.len(),
            n % 4 == 0,
            offset % 4 == 0,
            offset <= n,
            res@.len() == offset / 4,
            forall|k: int|
                0 <= k < res@.len() ==> res@[k] == be32_signed(
                    input_bytes@[4 * k],
                    input_bytes@[4 * k + 1],
                    input_bytes@[4 * k + 2],
                    input_bytes@[4 * k + 3],
                ),
        decreases n - offset,
    {
        let chunk = [input_bytes[offset], input_bytes[offset + 1], input_bytes[offset + 2], input_bytes[offset + 3]];
        res.push(parse_int32(&chunk));
        offset = offset + 4;
    }
    res
}

/// Variable length convenience function to convert 1, 2 or 4 bytes to an int.
pub fn bytes_to_uint(input_bytes: &[u8]) -> (r: u32)
    requires
        input_bytes@.len() == 1 || input_bytes@.len() == 2 || input_bytes@.len() == 4,
    ensures
        input_bytes@.len() == 1 ==> r == input_bytes@[0],
        input_bytes@.len() == 2 ==> r == be16(input_bytes@[0], input_bytes@[1]),
        input_bytes@.len() == 4 ==> r == be32(
            input_bytes@[0],
            input_bytes@[1],
            input_bytes@[2],
            input_bytes@[3],
        ),
{
    let num_bytes = input_bytes.len();
    if num_bytes == 1 {
        input_bytes[0] as u32
    } else if num_bytes == 2 {
        let chunk = [input_bytes[0], input_bytes[1]];
        parse_uint16(&chunk) as u32
    } else {
        let chunk = [input_bytes[0], input_bytes[1], input_bytes[2], input_bytes[3]];
        parse_uint32(&chunk)
    }
}

/// What `String::from_utf8_lossy` returns for a given byte sequence.
pub uninterp spec fn utf8_lossy_of(b: Seq<u8>) -> Seq<char>;

/// Relies on String::from_utf8_lossy: decodes UTF-8 bytes into characters,
/// replacing invalid sequences with the replacement character; bytes that are
/// all ASCII decode to themselves. The result depends on the bytes alone.
#[verifier::external_body]
pub(crate) fn utf8_lossy(bytes: &[u8]) -> (r: String)
    ensures
        r@ == utf8_lossy_of(bytes@),
        (forall|i: int| 0 <= i < bytes@.len() ==> bytes@[i] < 0x80) ==> r@ == bytes@.map_values(
            |b: u8| b as char,
        ),
{
    String::from_utf8_lossy(bytes).into_owned()
}

/// What `str::to_uppercase` returns for a given character sequence.
pub uninterp spec fn upper_of(s: Seq<char>) -> Seq<char>;

/// Relies on str::to_uppercase: the Unicode uppercase mapping of the string;
/// the result depends on the characters alone.
#[verifier::external_body]
pub(crate) fn to_uppercase(s: &str) -> (r: String)
    ensures
        r@ == upper_of(s@),
{
    s.to_uppercase()
}

/// Relies on String::push: appends the given character to the end of the string.
#[verifier::external_body]
pub(crate) fn push_char(s: &mut String, c: char)
    ensures
        final(s)@ == old(s)@.push(c),
{
    s.push(c);
}

/// Parses 4 bytes into a big endian signed integer.
pub fn parse_int32(unparsed_bytes: &[u8; 4]) -> (r: i32)
    ensures
        r == be32_signed(unparsed_bytes[0], unparsed_bytes[1], unparsed_bytes[2], unparsed_bytes[3]),
{
    let v = parse_uint32(unparsed_bytes);
    if v < 0x8000_0000 {
        v as i32
    } else {
        let low = v - 0x8000_0000;
        low as i32 + i32::MIN
    }
}

} // verus!
