use crate::radix::SortEntry;
use vstd::prelude::*;

verus! {

/// Sign bit of an IEEE-754 single-precision bit pattern.
pub const SIGN_BIT: u32 = 0x8000_0000;

/// Largest magnitude pattern that is not a NaN (the infinity).
pub const INFINITY_MAGNITUDE: u32 = 0x7F80_0000;

/// Sort key of a depth given by its IEEE-754 bit pattern: negative values
/// have all bits flipped, the others get the sign bit set, so that unsigned
/// comparison of keys follows the numeric order of the depths.
pub open spec fn encode_spec(bits: u32) -> u32 {
    if bits >= SIGN_BIT {
        (u32::MAX - bits) as u32
    } else {
        (bits + SIGN_BIT) as u32
    }
}

/// The bit pattern is a NaN: all exponent bits set and a non-zero fraction.
pub open spec fn is_nan_bits(bits: u32) -> bool {
    bits % SIGN_BIT > INFINITY_MAGNITUDE
}

/// Position of a non-NaN pattern on the number line: patterns of one sign
/// grow in magnitude with their value, so the magnitude bits, negated for
/// negative values, order the values as the numbers they stand for (both
/// zeros share position 0).
pub open spec fn float_rank(bits: u32) -> int {
    if bits >= SIGN_BIT {
        -((bits - SIGN_BIT) as int)
    } else {
        bits as int
    }
}

/// Order-preserving key of one depth bit pattern.
pub fn encode_depth(bits: u32) -> (r: u32)
    ensures
        r == encode_spec(bits),
{
    if bits >= SIGN_BIT {
        u32::MAX - bits
    } else {
        bits + SIGN_BIT
    }
}

/// Encoding is strictly monotonic over non-NaN depths: a smaller number
/// gets a smaller key.
pub proof fn lemma_encode_monotonic(a: u32, b: u32)
    requires
        !is_nan_bits(a),
        !is_nan_bits(b),
        float_rank(a) < float_rank(b),
    ensures
        encode_spec(a) < encode_spec(b),
{
}

/// Encoding is injective: distinct bit patterns get distinct keys.
pub proof fn lemma_encode_injective(a: u32, b: u32)
    requires
        a != b,
    ensures
        encode_spec(a) != encode_spec(b),
{
}

/// The entries that key extraction writes for the depths `bits`: the key of
/// each depth, with its position as index.
pub open spec fn extracted(bits: Seq<u32>) -> Seq<SortEntry> {
    Seq::new(bits.len(), |i: int| SortEntry { key: encode_spec(bits[i]), index: i as u32 })
}

/// One sort entry per depth: its key and the splat's position.
pub fn extract_keys(depth_bits: &Vec<u32>) -> (r: Vec<SortEntry>)
    requires
        depth_bits@.len() <= u32::MAX as nat + 1,
    ensures
        r@ == extracted(depth_bits@),
{
    let n = depth_bits.len();
    let mut r: Vec<SortEntry> = Vec::new();
    let mut i: usize = 0;
    while i < n
        invariant
            n == depth_bits@.len(),
            n <= u32::MAX as nat + 1,
            i <= n,
            r@ == extracted(depth_bits@).take(i as int),
        decreases n - i,
    {
        let key = encode_depth(depth_bits[i]);
        r.push(SortEntry { key, index: i as u32 });
        i += 1;
        assert(r@ =~= extracted(depth_bits@).take(i as int));
    }
    assert(r@ =~= extracted(depth_bits@));
    r
}

} // verus!
