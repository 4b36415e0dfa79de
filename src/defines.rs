use vstd::arithmetic::div_mod::{
    lemma_div_is_ordered_by_denominator, lemma_fundamental_div_mod,
    lemma_fundamental_div_mod_converse,
};
use vstd::prelude::*;

verus! {

/// Number of bits in a sort key.
pub const KEY_BITS: u32 = 32;

/// Bytes of one status counter.
pub const COUNTER_BYTES: usize = 4;

/// Compile-time configuration shared by the sort kernels and the host-side
/// buffer sizing.
pub struct ShaderDefines {
    pub radix_bits_per_digit: u32,
    pub radix_digit_places: u32,
    pub radix_base: u32,
    pub entries_per_invocation_a: u32,
    pub entries_per_invocation_c: u32,
    pub workgroup_invocations_a: u32,
    pub workgroup_invocations_c: u32,
    pub workgroup_entries_a: u32,
    pub workgroup_entries_c: u32,
    pub sorting_buffer_size: u32,
    pub temporal_sort_window_size: u32,
}

/// Tiles needed to cover `count` entries when each tile takes `per_tile`.
pub open spec fn tile_count(count: int, per_tile: int) -> int {
    (count + per_tile - 1) / per_tile
}

/// Splits the rounded-up quotient into whole tiles and one partial tile.
proof fn lemma_tile_count(c: int, w: int)
    requires
        c >= 0,
        w > 0,
    ensures
        tile_count(c, w) == c / w + if c % w == 0 { 0int } else { 1int },
        c / w <= c,
        c % w != 0 ==> c / w + 1 <= c,
{
    lemma_fundamental_div_mod(c, w);
    let q = c / w;
    let m = c % w;
    if m == 0 {
        assert(c + w - 1 == q * w + (w - 1)) by (nonlinear_arith)
            requires c == w * q + m, m == 0;
        lemma_fundamental_div_mod_converse(c + w - 1, w, q, w - 1);
    } else {
        assert(c + w - 1 == (q + 1) * w + (m - 1)) by (nonlinear_arith)
            requires c == w * q + m;
        lemma_fundamental_div_mod_converse(c + w - 1, w, q + 1, m - 1);
        assert(q + 1 <= c) by (nonlinear_arith)
            requires c == w * q + m, 0 < m < w, q >= 0;
    }
    lemma_div_is_ordered_by_denominator(c, 1, w);
    assert(c / 1 == c);
}

impl ShaderDefines {
    /// The derived constants agree with one another: 8-bit digits, enough
    /// digit places for a 32-bit key, and workgroup sizes built from them.
    pub open spec fn wf(&self) -> bool {
        &&& self.radix_bits_per_digit == 8
        &&& self.radix_digit_places == KEY_BITS / self.radix_bits_per_digit
        &&& self.radix_base == 256
        &&& self.workgroup_invocations_a == self.radix_base * self.radix_digit_places
        &&& self.workgroup_invocations_c == self.radix_base
        &&& self.workgroup_entries_a == self.workgroup_invocations_a
            * self.entries_per_invocation_a
        &&& self.workgroup_entries_c == self.workgroup_invocations_c
            * self.entries_per_invocation_c
        &&& self.entries_per_invocation_a == 4
        &&& self.entries_per_invocation_c == 4
    }

    /// Byte size of the status-counter buffer for a cloud of `count` splats.
    pub open spec fn status_counters_size(&self, count: int) -> int {
        self.radix_base * tile_count(count, self.workgroup_entries_c as int)
            * COUNTER_BYTES as int
    }

    /// Number of tiles the scatter pass splits `count` entries into:
    /// `ceil(count / workgroup_entries_c)`.
    pub fn max_tile_count(&self, count: usize) -> (r: u32)
        requires
            self.workgroup_entries_c > 0,
            count <= u32::MAX,
        ensures
            r == tile_count(count as int, self.workgroup_entries_c as int),
    {
        let per_tile = self.workgroup_entries_c as usize;
        let full = count / per_tile;
        let rest: usize = if count % per_tile == 0 { 0 } else { 1 };
        proof {
            lemma_tile_count(count as int, per_tile as int);
        }
        (full + rest) as u32
    }

    /// Byte size of the status-counter buffer:
    /// `radix_base * max_tile_count(count) * 4`.
    pub fn sorting_status_counters_buffer_size(&self, count: usize) -> (r: usize)
        requires
            self.workgroup_entries_c > 0,
            count <= u32::MAX,
            self.status_counters_size(count as int) <= usize::MAX,
        ensures
            r == self.status_counters_size(count as int),
    {
        let tiles = self.max_tile_count(count);
        self.radix_base as usize * tiles as usize * COUNTER_BYTES
    }
}

impl Default for ShaderDefines {
    fn default() -> (r: Self)
        ensures
            r.wf(),
            r.radix_digit_places == 4,
            r.workgroup_invocations_a == 1024,
            r.workgroup_invocations_c == 256,
            r.workgroup_entries_a == 4096,
            r.workgroup_entries_c == 1024,
            r.sorting_buffer_size == 256 * 4 * 4 + 5 * 4,
            r.temporal_sort_window_size == 16,
    {
        let radix_bits_per_digit: u32 = 8;
        let radix_digit_places: u32 = KEY_BITS / radix_bits_per_digit;
        let radix_base: u32 = 1u32 << radix_bits_per_digit;
        assert(radix_base == 256) by (bit_vector)
            requires radix_base == 1u32 << radix_bits_per_digit, radix_bits_per_digit == 8;
        let entries_per_invocation_a: u32 = 4;
        let entries_per_invocation_c: u32 = 4;
        let workgroup_invocations_a = radix_base * radix_digit_places;
        let workgroup_invocations_c = radix_base;
        let workgroup_entries_a = workgroup_invocations_a * entries_per_invocation_a;
        let workgroup_entries_c = workgroup_invocations_c * entries_per_invocation_c;
        let counter_bytes = COUNTER_BYTES as u32;
        let sorting_buffer_size = radix_base * radix_digit_places * counter_bytes
            + 5 * counter_bytes;
        ShaderDefines {
            radix_bits_per_digit,
            radix_digit_places,
            radix_base,
            entries_per_invocation_a,
            entries_per_invocation_c,
            workgroup_invocations_a,
            workgroup_invocations_c,
            workgroup_entries_a,
            workgroup_entries_c,
            sorting_buffer_size,
            temporal_sort_window_size: 16,
        }
    }
}

} // verus!
