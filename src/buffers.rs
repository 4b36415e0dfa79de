use crate::key::{extract_keys, extracted, float_rank, is_nan_bits, lemma_encode_monotonic};
use crate::radix::{
    indexed_by_position, is_reordering, is_stable_sort_of, lemma_pass_step,
    lemma_sort_adjacent_ordered, lemma_sort_permutes_indices, ordered_below, pass_origin, pass_slot,
    scatter_pass, SortEntry, RADIX_BASE,
};
use vstd::prelude::*;

verus! {

/// Place values of the four 8-bit digits of a key, least significant first.
pub const PLACE_0: u32 = 1;
pub const PLACE_1: u32 = 256;
pub const PLACE_2: u32 = 65536;
pub const PLACE_3: u32 = 16777216;

/// Which of the two entry buffers of a pair.
#[derive(Clone, Copy, Debug, PartialEq, Eq, Structural)]
pub enum BufferSlot {
    A,
    B,
}

impl BufferSlot {
    pub open spec fn other_spec(self) -> BufferSlot {
        match self {
            BufferSlot::A => BufferSlot::B,
            BufferSlot::B => BufferSlot::A,
        }
    }

    /// The buffer that is not this one.
    pub fn other(self) -> (r: BufferSlot)
        ensures
            r == self.other_spec(),
            r != self,
    {
        match self {
            BufferSlot::A => BufferSlot::B,
            BufferSlot::B => BufferSlot::A,
        }
    }
}

/// Before any pass, entries are trivially ordered by no digit at all, each
/// at its own position.
proof fn lemma_unsorted_start(input: Seq<SortEntry>)
    ensures
        is_reordering(input, input, Seq::new(input.len(), |p: int| p)),
        ordered_below(input, Seq::new(input.len(), |p: int| p), PLACE_0 as int),
{
    let origin = Seq::new(input.len(), |p: int| p);
    assert forall|p: int, q: int| 0 <= p < q < input.len() implies (input[p].key as int % 1
        < #[trigger] input[q].key as int % 1 || (#[trigger] input[p].key as int % 1
        == input[q].key as int % 1 && origin[p] < origin[q])) by {}
}

/// Ordered by all four digits is ordered by the whole key.
proof fn lemma_full_key_order(out: Seq<SortEntry>, input: Seq<SortEntry>, origin: Seq<int>)
    requires
        is_reordering(out, input, origin),
        ordered_below(out, origin, PLACE_3 as int * RADIX_BASE as int),
    ensures
        is_stable_sort_of(out, input, origin),
{
    assert(PLACE_3 as int * RADIX_BASE as int == 0x1_0000_0000);
    assert forall|p: int, q: int| 0 <= p < q < out.len() implies (#[trigger] out[p].key
        < #[trigger] out[q].key || (out[p].key == out[q].key && origin[p] < origin[q])) by {
        assert(out[p].key as int % 0x1_0000_0000 == out[p].key as int);
        assert(out[q].key as int % 0x1_0000_0000 == out[q].key as int);
    }
}

/// Two equally sized entry buffers; one of them, `current`, holds the valid
/// entries, and each digit pass writes the other and makes it current.
pub struct SortBufferPair {
    pub entry_buffer_a: Vec<SortEntry>,
    pub entry_buffer_b: Vec<SortEntry>,
    pub current: BufferSlot,
}

impl SortBufferPair {
    /// Both buffers have the same capacity.
    pub open spec fn wf(&self) -> bool {
        self.entry_buffer_a@.len() == self.entry_buffer_b@.len()
    }

    /// Number of entries each buffer holds.
    pub open spec fn capacity(&self) -> nat {
        self.entry_buffer_a@.len()
    }

    /// The entries of the current buffer.
    pub open spec fn current_entries(&self) -> Seq<SortEntry> {
        match self.current {
            BufferSlot::A => self.entry_buffer_a@,
            BufferSlot::B => self.entry_buffer_b@,
        }
    }

    /// A pair of zero-filled buffers of `count` entries each; `A` is current.
    pub fn new(count: usize) -> (r: SortBufferPair)
        ensures
            r.wf(),
            r.capacity() == count,
            r.current == BufferSlot::A,
            r.current_entries() == Seq::new(count as nat, |i: int| SortEntry { key: 0, index: 0 }),
    {
        let mut a: Vec<SortEntry> = Vec::new();
        let mut b: Vec<SortEntry> = Vec::new();
        let mut i: usize = 0;
        while i < count
            invariant
                i <= count,
                a@.len() == i,
                b@.len() == i,
                forall|j: int| 0 <= j < i ==> a@[j] == (SortEntry { key: 0, index: 0 }),
            decreases count - i,
        {
            a.push(SortEntry { key: 0, index: 0 });
            b.push(SortEntry { key: 0, index: 0 });
            i += 1;
        }
        let r = SortBufferPair { entry_buffer_a: a, entry_buffer_b: b, current: BufferSlot::A };
        assert(r.current_entries() =~= Seq::new(count as nat, |i: int| SortEntry { key: 0, index: 0 }));
        r
    }

    /// The current buffer.
    pub fn current_buffer(&self) -> (r: &Vec<SortEntry>)
        ensures
            r@ == self.current_entries(),
    {
        match self.current {
            BufferSlot::A => &self.entry_buffer_a,
            BufferSlot::B => &self.entry_buffer_b,
        }
    }

    /// Replaces the current buffer's entries; the capacity must match.
    pub fn write_current(&mut self, entries: Vec<SortEntry>)
        requires
            old(self).wf(),
            entries@.len() == old(self).capacity(),
        ensures
            final(self).wf(),
            final(self).capacity() == old(self).capacity(),
            final(self).current == old(self).current,
            final(self).current_entries() == entries@,
    {
        match self.current {
            BufferSlot::A => self.entry_buffer_a = entries,
            BufferSlot::B => self.entry_buffer_b = entries,
        }
    }

    /// One digit pass from the current buffer into the other, which then
    /// becomes current.
    pub fn run_pass(&mut self, place: u32, tile_entries: usize)
        requires
            old(self).wf(),
            place > 0,
            tile_entries > 0,
        ensures
            final(self).wf(),
            final(self).capacity() == old(self).capacity(),
            final(self).current == old(self).current.other_spec(),
            forall|i: int|
                0 <= i < old(self).capacity() ==> final(self).current_entries()[#[trigger] pass_slot(
                    old(self).current_entries(),
                    place as int,
                    i,
                )] == old(self).current_entries()[i],
    {
        match self.current {
            BufferSlot::A => {
                scatter_pass(&self.entry_buffer_a, &mut self.entry_buffer_b, place, tile_entries);
            },
            BufferSlot::B => {
                scatter_pass(&self.entry_buffer_b, &mut self.entry_buffer_a, place, tile_entries);
            },
        }
        self.current = self.current.other();
    }

    /// Full sort: four digit passes, least significant digit first, each
    /// in tiles of `tile_entries`. The
    /// result lands in the buffer that was current before, and is the
    /// stable sort by key of what that buffer held.
    pub fn sort(&mut self, tile_entries: usize)
        requires
            old(self).wf(),
            tile_entries > 0,
        ensures
            final(self).wf(),
            final(self).capacity() == old(self).capacity(),
            final(self).current == old(self).current,
            exists|origin: Seq<int>|
                is_stable_sort_of(final(self).current_entries(), old(self).current_entries(), origin),
    {
        let ghost input = self.current_entries();
        let ghost mut origin = Seq::new(input.len(), |p: int| p);
        proof {
            lemma_unsorted_start(input);
        }
        let ghost s0 = self.current_entries();
        self.run_pass(PLACE_0, tile_entries);
        proof {
            lemma_pass_step(s0, self.current_entries(), input, origin, PLACE_0 as int);
            origin = pass_origin(s0, origin, PLACE_0 as int);
        }
        let ghost s1 = self.current_entries();
        self.run_pass(PLACE_1, tile_entries);
        proof {
            lemma_pass_step(s1, self.current_entries(), input, origin, PLACE_1 as int);
            origin = pass_origin(s1, origin, PLACE_1 as int);
        }
        let ghost s2 = self.current_entries();
        self.run_pass(PLACE_2, tile_entries);
        proof {
            lemma_pass_step(s2, self.current_entries(), input, origin, PLACE_2 as int);
            origin = pass_origin(s2, origin, PLACE_2 as int);
        }
        let ghost s3 = self.current_entries();
        self.run_pass(PLACE_3, tile_entries);
        proof {
            lemma_pass_step(s3, self.current_entries(), input, origin, PLACE_3 as int);
            origin = pass_origin(s3, origin, PLACE_3 as int);
            lemma_full_key_order(self.current_entries(), input, origin);
        }
    }
}

/// Sorts the keys of the given depths: key extraction into a fresh buffer
/// pair, then a full sort in tiles of `tile_entries`. Each entry's index is
/// the depth's position.
pub fn sort_depths(depth_bits: &Vec<u32>, tile_entries: usize) -> (r: Vec<SortEntry>)
    requires
        depth_bits@.len() <= u32::MAX as nat + 1,
        tile_entries > 0,
    ensures
        exists|origin: Seq<int>| is_stable_sort_of(r@, extracted(depth_bits@), origin),
{
    let entries = extract_keys(depth_bits);
    let mut pair = SortBufferPair::new(depth_bits.len());
    pair.write_current(entries);
    pair.sort(tile_entries);
    match pair.current {
        BufferSlot::A => pair.entry_buffer_a,
        BufferSlot::B => pair.entry_buffer_b,
    }
}

/// Depths read back in sorted order never decrease: when no depth is a NaN,
/// the depth of each sorted entry is at most the depth of the next.
pub proof fn lemma_sorted_depths_ascend(depths: Seq<u32>, out: Seq<SortEntry>, origin: Seq<int>)
    requires
        depths.len() <= u32::MAX as nat + 1,
        forall|i: int| 0 <= i < depths.len() ==> !is_nan_bits(#[trigger] depths[i]),
        is_stable_sort_of(out, extracted(depths), origin),
    ensures
        forall|i: int|
            0 <= i < out.len() - 1 ==> float_rank(depths[#[trigger] out[i].index as int]) <= float_rank(
                depths[out[i + 1].index as int],
            ),
{
    let input = extracted(depths);
    assert(indexed_by_position(input));
    lemma_sort_permutes_indices(out, input, origin);
    lemma_sort_adjacent_ordered(out, input, origin);
    assert forall|i: int| 0 <= i < out.len() - 1 implies float_rank(
        depths[#[trigger] out[i].index as int],
    ) <= float_rank(depths[out[i + 1].index as int]) by {
        let a = depths[out[i].index as int];
        let b = depths[out[i + 1].index as int];
        assert(out[i] == input[out[i].index as int]);
        assert(out[i + 1] == input[out[i + 1].index as int]);
        if float_rank(b) < float_rank(a) {
            lemma_encode_monotonic(b, a);
        }
    }
}

} // verus!
