use crate::buffers::{BufferSlot, SortBufferPair};
use crate::defines::ShaderDefines;
use crate::key::{extract_keys, extracted};
use crate::radix::is_stable_sort_of;
use vstd::arithmetic::div_mod::{lemma_mod_self_0, lemma_small_mod};
use vstd::prelude::*;

verus! {

/// Vertices of the screen-aligned quad drawn per splat, as a triangle strip.
pub const QUAD_VERTICES: u32 = 4;

/// Bytes of one indirect draw record: four 32-bit words.
pub const DRAW_INDIRECT_BYTES: u64 = 16;

/// Arguments of a non-indexed indirect draw.
#[derive(Clone, Copy, Debug, PartialEq, Eq, Structural)]
pub struct DrawIndirectArgs {
    pub vertex_count: u32,
    pub instance_count: u32,
    pub first_vertex: u32,
    pub first_instance: u32,
}

/// A device buffer: its identity and its size in bytes.
#[derive(Clone, Copy, Debug, PartialEq, Eq, Structural)]
pub struct BufferHandle {
    pub id: u64,
    pub size: u64,
}

/// Fresh identities for the buffers of one upload.
#[derive(Clone, Copy, Debug, PartialEq, Eq, Structural)]
pub struct UploadIds {
    pub gaussian_buffer: u64,
    pub draw_indirect_buffer: u64,
    pub sort_buffer_a: u64,
    pub sort_buffer_b: u64,
}

/// The device-side record of one uploaded cloud: the splat storage, the
/// indirect draw record, the sort buffers and the status-counter size, all
/// sized for `count` splats.
pub struct GpuGaussianCloud {
    pub gaussian_buffer: BufferHandle,
    pub count: usize,
    pub draw_indirect_buffer: BufferHandle,
    pub draw_args: DrawIndirectArgs,
    pub sort_buffer_a_id: u64,
    pub sort_buffer_b_id: u64,
    pub radix_sort_buffers: SortBufferPair,
    pub status_counters_size: usize,
    /// Entries one tile of a digit pass takes.
    pub tile_entries: usize,
}

/// The indirect draw of `count` quads.
pub open spec fn draw_args_for(count: u32) -> DrawIndirectArgs {
    DrawIndirectArgs { vertex_count: QUAD_VERTICES, instance_count: count, first_vertex: 0, first_instance: 0 }
}

impl GpuGaussianCloud {
    /// The device buffer that holds the most recent sorted order.
    pub open spec fn sorted_buffer_id(&self) -> u64 {
        match self.radix_sort_buffers.current {
            BufferSlot::A => self.sort_buffer_a_id,
            BufferSlot::B => self.sort_buffer_b_id,
        }
    }

    /// The device buffer that holds the most recent sorted order.
    pub fn sorted_buffer(&self) -> (r: u64)
        ensures
            r == self.sorted_buffer_id(),
    {
        match self.radix_sort_buffers.current {
            BufferSlot::A => self.sort_buffer_a_id,
            BufferSlot::B => self.sort_buffer_b_id,
        }
    }

    /// Every buffer is sized for the splat count.
    pub open spec fn wf(&self, defines: ShaderDefines) -> bool {
        &&& self.count <= u32::MAX
        &&& self.radix_sort_buffers.wf()
        &&& self.radix_sort_buffers.capacity() == self.count
        &&& self.draw_args == draw_args_for(self.count as u32)
        &&& self.draw_indirect_buffer.size == DRAW_INDIRECT_BYTES
        &&& self.status_counters_size == defines.status_counters_size(self.count as int)
        &&& self.tile_entries == defines.workgroup_entries_c
        &&& self.tile_entries > 0
    }

    /// Uploads a cloud of `count` splats of `gaussian_bytes` bytes each.
    pub fn prepare(count: usize, gaussian_bytes: u64, defines: &ShaderDefines, ids: UploadIds) -> (r: GpuGaussianCloud)
        requires
            count <= u32::MAX,
            defines.workgroup_entries_c > 0,
            defines.status_counters_size(count as int) <= usize::MAX,
            count * gaussian_bytes <= u64::MAX,
        ensures
            r.wf(*defines),
            r.count == count,
            r.gaussian_buffer == (BufferHandle { id: ids.gaussian_buffer, size: (count * gaussian_bytes) as u64 }),
            r.draw_indirect_buffer.id == ids.draw_indirect_buffer,
            r.sort_buffer_a_id == ids.sort_buffer_a,
            r.sort_buffer_b_id == ids.sort_buffer_b,
            r.radix_sort_buffers.current == BufferSlot::A,
    {
        let gaussian_buffer = BufferHandle { id: ids.gaussian_buffer, size: count as u64 * gaussian_bytes };
        let draw_indirect_buffer = BufferHandle { id: ids.draw_indirect_buffer, size: DRAW_INDIRECT_BYTES };
        GpuGaussianCloud {
            gaussian_buffer,
            count,
            draw_indirect_buffer,
            draw_args: DrawIndirectArgs {
                vertex_count: QUAD_VERTICES,
                instance_count: count as u32,
                first_vertex: 0,
                first_instance: 0,
            },
            sort_buffer_a_id: ids.sort_buffer_a,
            sort_buffer_b_id: ids.sort_buffer_b,
            radix_sort_buffers: SortBufferPair::new(count),
            status_counters_size: defines.sorting_status_counters_buffer_size(count),
            tile_entries: defines.workgroup_entries_c as usize,
        }
    }

    /// Reallocates every buffer of the cloud for a new splat count, the
    /// sort buffers, the draw record and the status counters together; a
    /// cloud whose count is unchanged keeps its buffers. Returns whether it
    /// reallocated.
    pub fn resize(&mut self, count: usize, gaussian_bytes: u64, defines: &ShaderDefines, ids: UploadIds) -> (r: bool)
        requires
            count <= u32::MAX,
            defines.workgroup_entries_c > 0,
            defines.status_counters_size(count as int) <= usize::MAX,
            count * gaussian_bytes <= u64::MAX,
        ensures
            r == (count != old(self).count),
            !r ==> *final(self) == *old(self),
            r ==> final(self).wf(*defines),
            r ==> final(self).count == count,
            r ==> final(self).gaussian_buffer == (BufferHandle {
                id: ids.gaussian_buffer,
                size: (count * gaussian_bytes) as u64,
            }),
            r ==> final(self).draw_indirect_buffer.id == ids.draw_indirect_buffer,
            r ==> final(self).sort_buffer_a_id == ids.sort_buffer_a,
            r ==> final(self).sort_buffer_b_id == ids.sort_buffer_b,
            r ==> final(self).radix_sort_buffers.current == BufferSlot::A,
    {
        if count == self.count {
            return false;
        }
        *self = GpuGaussianCloud::prepare(count, gaussian_bytes, defines, ids);
        true
    }

    /// Sorts this frame's depths when the window asks for it; otherwise
    /// keeps the previous frame's order. The depths must number exactly the
    /// splats: a mismatch is a sizing fault, never a frame to draw.
    pub fn sort_frame(&mut self, window: &mut TemporalSortWindow, depth_bits: &Vec<u32>) -> (r: SortAction)
        requires
            old(self).count <= u32::MAX,
            old(self).tile_entries > 0,
            old(self).radix_sort_buffers.wf(),
            old(self).radix_sort_buffers.capacity() == old(self).count,
            old(window).wf(),
            depth_bits@.len() == old(self).count,
        ensures
            final(window).wf(),
            final(window).window_size == old(window).window_size,
            final(window).frame == (old(window).frame + 1) % (old(window).window_size as int),
            r == old(window).action_spec(),
            final(self).count == old(self).count,
            final(self).gaussian_buffer == old(self).gaussian_buffer,
            final(self).draw_indirect_buffer == old(self).draw_indirect_buffer,
            final(self).draw_args == old(self).draw_args,
            final(self).sort_buffer_a_id == old(self).sort_buffer_a_id,
            final(self).sort_buffer_b_id == old(self).sort_buffer_b_id,
            final(self).radix_sort_buffers.current == old(self).radix_sort_buffers.current,
            final(self).status_counters_size == old(self).status_counters_size,
            final(self).tile_entries == old(self).tile_entries,
            final(self).radix_sort_buffers.wf(),
            final(self).radix_sort_buffers.capacity() == old(self).count,
            r == SortAction::ReusePrevious ==> final(self).radix_sort_buffers == old(
                self,
            ).radix_sort_buffers,
            r == SortAction::FullResort ==> exists|origin: Seq<int>|
                is_stable_sort_of(
                    final(self).radix_sort_buffers.current_entries(),
                    extracted(depth_bits@),
                    origin,
                ),
    {
        let action = window.next_frame();
        match action {
            SortAction::FullResort => {
                let entries = extract_keys(depth_bits);
                self.radix_sort_buffers.write_current(entries);
                self.radix_sort_buffers.sort(self.tile_entries);
            },
            SortAction::ReusePrevious => {},
        }
        action
    }
}

/// What one frame does about the order of a cloud.
#[derive(Clone, Copy, Debug, PartialEq, Eq, Structural)]
pub enum SortAction {
    /// Extract fresh keys and run all digit passes.
    FullResort,
    /// Draw with the order of the previous frame.
    ReusePrevious,
}

/// Amortises full resorts over frames: the first frame of every window of
/// `window_size` frames resorts, the others reuse the last order, and a
/// resort request makes the next frame resort.
pub struct TemporalSortWindow {
    pub window_size: u32,
    pub frame: u32,
}

impl TemporalSortWindow {
    /// The frame counter stays inside the window.
    pub open spec fn wf(&self) -> bool {
        0 <= self.frame < self.window_size
    }

    /// The action of the coming frame.
    pub open spec fn action_spec(&self) -> SortAction {
        if self.frame == 0 {
            SortAction::FullResort
        } else {
            SortAction::ReusePrevious
        }
    }

    /// A window whose first frame resorts.
    pub fn new(window_size: u32) -> (r: TemporalSortWindow)
        requires
            window_size > 0,
        ensures
            r.wf(),
            r.window_size == window_size,
            r.frame == 0,
    {
        TemporalSortWindow { window_size, frame: 0 }
    }

    /// Decides the coming frame and advances the counter.
    pub fn next_frame(&mut self) -> (r: SortAction)
        requires
            old(self).wf(),
        ensures
            final(self).wf(),
            final(self).window_size == old(self).window_size,
            final(self).frame == (old(self).frame + 1) % (old(self).window_size as int),
            r == old(self).action_spec(),
    {
        let action = if self.frame == 0 {
            SortAction::FullResort
        } else {
            SortAction::ReusePrevious
        };
        proof {
            let w = self.window_size as int;
            if self.frame + 1 == w {
                lemma_mod_self_0(w);
            } else {
                lemma_small_mod((self.frame + 1) as nat, w as nat);
            }
        }
        self.frame = if self.frame + 1 == self.window_size {
            0
        } else {
            self.frame + 1
        };
        action
    }

    /// Makes the coming frame resort, as when the order is known to be stale.
    pub fn request_resort(&mut self)
        requires
            old(self).wf(),
        ensures
            final(self).wf(),
            final(self).window_size == old(self).window_size,
            final(self).frame == 0,
    {
        self.frame = 0;
    }
}

} // verus!
