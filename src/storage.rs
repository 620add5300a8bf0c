//! The two ping-pong shadow-map arrays and the alpha array: when they must
//! be recreated, how many work groups cover them, and which array holds the
//! result of the reduction.

use crate::atlas::{ceil_div, groups_for_extent, is_power_of_two, log2, reductions_for_size};
use crate::atlas::SHADOW_WORKGROUP_SIZE;
use crate::meta::GpuMetaBuffers;
use vstd::arithmetic::power2::pow2;
use vstd::prelude::*;

verus! {

/// Identity of the arrays: number of layers (one per light) and the side
/// length of each layer in texels.
#[derive(Clone, Copy, PartialEq, Eq, Debug, Structural)]
pub struct ShadowMap2dMeta {
    pub count: u32,
    pub size: u32,
}

/// Work groups of a compute dispatch along x, y and z.
#[derive(Clone, Copy, PartialEq, Eq, Debug, Structural)]
pub struct WorkGroupCount {
    pub x: u32,
    pub y: u32,
    pub z: u32,
}

/// One of the two ping-pong shadow-map arrays.
#[derive(Clone, Copy, PartialEq, Eq, Debug, Structural)]
pub enum ShadowMapTexture {
    Primary,
    Secondary,
}

/// Work groups covering one layer of `size` texels a side.
pub open spec fn groups_per_light(size: u32) -> WorkGroupCount {
    WorkGroupCount {
        x: ceil_div(size as nat, SHADOW_WORKGROUP_SIZE as nat) as u32,
        y: ceil_div(size as nat, SHADOW_WORKGROUP_SIZE as nat) as u32,
        z: 1,
    }
}

/// Work groups covering every layer of arrays with identity `meta`.
pub open spec fn groups_total(meta: ShadowMap2dMeta) -> WorkGroupCount {
    WorkGroupCount {
        x: ceil_div(meta.size as nat, SHADOW_WORKGROUP_SIZE as nat) as u32,
        y: ceil_div(meta.size as nat, SHADOW_WORKGROUP_SIZE as nat) as u32,
        z: meta.count,
    }
}

/// The array that holds the result after `n` reduction iterations that
/// start from the primary array: the secondary one exactly when `n` is odd.
pub open spec fn final_texture_for(n: nat) -> ShadowMapTexture {
    if n % 2 == 1 {
        ShadowMapTexture::Secondary
    } else {
        ShadowMapTexture::Primary
    }
}

/// Arrays of identity `meta` must be created: none exist yet, or the
/// current ones have another identity.
pub open spec fn needs_reallocation(storage: ShadowMap2dStorage, meta: ShadowMap2dMeta) -> bool {
    !(storage.allocated() && storage.meta() == meta)
}

/// The storage after an update to `meta`: unchanged when arrays of that
/// identity exist; otherwise sized for `meta`.
pub closed spec fn updated(storage: ShadowMap2dStorage, meta: ShadowMap2dMeta) -> ShadowMap2dStorage {
    if !needs_reallocation(storage, meta) {
        storage
    } else {
        ShadowMap2dStorage {
            meta,
            allocated: true,
            work_group_count_per_light: groups_per_light(meta.size),
            work_group_count_total: groups_total(meta),
            num_reductions: log2(meta.size as nat) as u32,
        }
    }
}

/// Sizing state of the shadow-map arrays. The arrays themselves live with
/// the GPU device; this records their identity and what it implies.
pub struct ShadowMap2dStorage {
    meta: ShadowMap2dMeta,
    allocated: bool,
    work_group_count_per_light: WorkGroupCount,
    work_group_count_total: WorkGroupCount,
    num_reductions: u32,
}

impl ShadowMap2dStorage {
    /// Identity of the current arrays.
    pub closed spec fn meta(&self) -> ShadowMap2dMeta {
        self.meta
    }

    /// Whether arrays have been created yet.
    pub closed spec fn allocated(&self) -> bool {
        self.allocated
    }

    /// Number of reduction iterations over the current arrays.
    pub closed spec fn reductions(&self) -> u32 {
        self.num_reductions
    }

    /// Work groups of a dispatch over one layer.
    pub closed spec fn per_light(&self) -> WorkGroupCount {
        self.work_group_count_per_light
    }

    /// Work groups of a dispatch over all layers.
    pub closed spec fn total(&self) -> WorkGroupCount {
        self.work_group_count_total
    }

    /// Once arrays exist, their size is a power of two, the reduction runs
    /// `log2(size)` times and the work-group counts cover them.
    pub open spec fn wf(&self) -> bool {
        &&& self.allocated() ==> {
            &&& is_power_of_two(self.meta().size as nat)
            &&& self.reductions() as nat == log2(self.meta().size as nat)
            &&& pow2(self.reductions() as nat) == self.meta().size
            &&& self.per_light() == groups_per_light(self.meta().size)
            &&& self.total() == groups_total(self.meta())
        }
        &&& !self.allocated() ==> self.reductions() == 0
    }

    /// No arrays yet.
    pub fn new() -> (r: ShadowMap2dStorage)
        ensures
            r.wf(),
            !r.allocated(),
            r.reductions() == 0,
    {
        ShadowMap2dStorage {
            meta: ShadowMap2dMeta { count: 0, size: 0 },
            allocated: false,
            work_group_count_per_light: WorkGroupCount { x: 0, y: 0, z: 0 },
            work_group_count_total: WorkGroupCount { x: 0, y: 0, z: 0 },
            num_reductions: 0,
        }
    }

    /// Brings the arrays to identity `meta`. Returns whether they have to be
    /// created anew (first call, or a different identity); when they do, the
    /// work-group counts, the number of reductions and the reduction
    /// iteration buffer follow the new size. The size must be a power of two.
    pub fn try_update(&mut self, meta: ShadowMap2dMeta, meta_buffers: &mut GpuMetaBuffers) -> (r:
        bool)
        requires
            old(self).wf(),
            is_power_of_two(meta.size as nat),
        ensures
            final(self).wf(),
            final(self).allocated(),
            final(self).meta() == meta,
            r == needs_reallocation(*old(self), meta),
            *final(self) == updated(*old(self), meta),
            !needs_reallocation(*final(self), meta),
            final(self).reductions() as nat == log2(meta.size as nat),
            !r ==> *final(self) == *old(self) && *final(meta_buffers) == *old(meta_buffers),
            r ==> {
                &&& final(meta_buffers).wf()
                &&& final(meta_buffers).reduction_numbers().len() == final(self).reductions()
                &&& final(meta_buffers).light_metas() == old(meta_buffers).light_metas()
            },
    {
        if self.allocated && self.meta == meta {
            return false;
        }
        let num_reductions = reductions_for_size(meta.size);
        let groups = groups_for_extent(meta.size);
        self.meta = meta;
        self.allocated = true;
        self.work_group_count_per_light = WorkGroupCount { x: groups, y: groups, z: 1 };
        self.work_group_count_total = WorkGroupCount { x: groups, y: groups, z: meta.count };
        self.num_reductions = num_reductions;
        meta_buffers.init_reduction_time_buffer(num_reductions);
        true
    }

    /// Identity of the current arrays.
    pub fn current_meta(&self) -> (r: ShadowMap2dMeta)
        ensures
            r == self.meta(),
    {
        self.meta
    }

    /// Whether arrays have been created yet.
    pub fn is_allocated(&self) -> (r: bool)
        ensures
            r == self.allocated(),
    {
        self.allocated
    }

    /// The array that holds the result of the reduction.
    pub fn final_texture_view(&self) -> (r: ShadowMapTexture)
        ensures
            r == final_texture_for(self.reductions() as nat),
    {
        if self.num_reductions % 2 == 1 {
            ShadowMapTexture::Secondary
        } else {
            ShadowMapTexture::Primary
        }
    }

    /// Work groups of a dispatch over one light's layer.
    pub fn work_group_count_per_light(&self) -> (r: WorkGroupCount)
        ensures
            r == self.per_light(),
    {
        self.work_group_count_per_light
    }

    /// Work groups of a dispatch over every light's layer.
    pub fn work_group_count_total(&self) -> (r: WorkGroupCount)
        ensures
            r == self.total(),
    {
        self.work_group_count_total
    }

    /// Number of reduction iterations.
    pub fn num_reductions(&self) -> (r: u32)
        ensures
            r == self.reductions(),
    {
        self.num_reductions
    }
}

/// Updating twice to the same identity allocates once: after an update to
/// `meta`, a second update to `meta` creates no arrays and leaves the
/// storage as the first left it.
pub proof fn lemma_update_idempotent(storage: ShadowMap2dStorage, meta: ShadowMap2dMeta)
    requires
        storage.wf(),
        is_power_of_two(meta.size as nat),
    ensures
        !needs_reallocation(updated(storage, meta), meta),
        updated(updated(storage, meta), meta) == updated(storage, meta),
{
}

/// Every size the arrays take is a power of two, and the reduction runs
/// `log2(size)` times: `2^reductions == size`.
pub proof fn lemma_sizes_are_powers_of_two(storage: ShadowMap2dStorage)
    requires
        storage.wf(),
        storage.allocated(),
    ensures
        is_power_of_two(storage.meta().size as nat),
        storage.reductions() as nat == log2(storage.meta().size as nat),
        pow2(storage.reductions() as nat) == storage.meta().size,
{
}

} // verus!
