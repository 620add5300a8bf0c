//! The per-frame pass schedule: the fixed order of the shadow passes, and
//! for each pass the dispatches it issues this frame, or none when an input
//! is not ready (the pass is then skipped for this frame only).

use crate::lights::LightSlot;
use crate::meta::{slot_offset, GpuMetaBuffers};
use crate::storage::{final_texture_for, ShadowMap2dStorage, ShadowMapTexture, WorkGroupCount};
use vstd::prelude::*;

verus! {

/// The shadow passes, in the order they run after the scene's main pass.
#[derive(Clone, Copy, PartialEq, Eq, Debug, Hash, Structural)]
pub enum Shadow2dNode {
    Shadow2dMeshPass,
    Shadow2dPrepass,
    Shadow2dDistortPass,
    Shadow2dReductionPass,
    Shadow2dMainPass,
}

/// Marks the view that drives the shadow passes.
#[derive(Clone, Copy, PartialEq, Eq, Debug, Structural)]
pub struct MainShadowCameraDriver;

/// The view that drives the shadow passes: the first main view, if any.
pub fn select_shadow_view(views: &Vec<u64>) -> (r: Option<u64>)
    ensures
        views@.len() == 0 ==> r.is_none(),
        views@.len() > 0 ==> r == Some(views@[0]),
{
    if views.len() == 0 {
        None
    } else {
        Some(views[0])
    }
}

/// Mesh pass, prepass, distortion, reduction, then the main composite pass.
pub open spec fn pass_order_spec() -> Seq<Shadow2dNode> {
    seq![
        Shadow2dNode::Shadow2dMeshPass,
        Shadow2dNode::Shadow2dPrepass,
        Shadow2dNode::Shadow2dDistortPass,
        Shadow2dNode::Shadow2dReductionPass,
        Shadow2dNode::Shadow2dMainPass,
    ]
}

/// The shadow passes in the order they run.
pub fn pass_order() -> (r: Vec<Shadow2dNode>)
    ensures
        r@ == pass_order_spec(),
{
    let r = vec![
        Shadow2dNode::Shadow2dMeshPass,
        Shadow2dNode::Shadow2dPrepass,
        Shadow2dNode::Shadow2dDistortPass,
        Shadow2dNode::Shadow2dReductionPass,
        Shadow2dNode::Shadow2dMainPass,
    ];
    assert(r@ =~= pass_order_spec());
    r
}

/// The other ping-pong array.
pub open spec fn other(t: ShadowMapTexture) -> ShadowMapTexture {
    match t {
        ShadowMapTexture::Primary => ShadowMapTexture::Secondary,
        ShadowMapTexture::Secondary => ShadowMapTexture::Primary,
    }
}

/// The array read by reduction iteration `t`: the primary one on even
/// iterations.
pub open spec fn reduction_source_for(t: nat) -> ShadowMapTexture {
    if t % 2 == 0 {
        ShadowMapTexture::Primary
    } else {
        ShadowMapTexture::Secondary
    }
}

/// The array written by reduction iteration `t`.
pub open spec fn reduction_target_for(t: nat) -> ShadowMapTexture {
    other(reduction_source_for(t))
}

/// The array holding the data after `n` iterations, following the data
/// from the primary array through each iteration's write.
pub open spec fn holder_after(n: nat) -> ShadowMapTexture
    decreases n,
{
    if n == 0 {
        ShadowMapTexture::Primary
    } else {
        reduction_target_for((n - 1) as nat)
    }
}

/// Each reduction iteration reads the array that the previous one wrote
/// (the first reads the primary array), and after `n` iterations the
/// result lies in the array that the storage reports as final: the
/// secondary one exactly when `n` is odd.
pub proof fn lemma_reduction_parity(n: nat)
    ensures
        forall|t: nat| t < n ==> #[trigger] reduction_source_for(t) == holder_after(t),
        final_texture_for(n) == holder_after(n),
        final_texture_for(n) == ShadowMapTexture::Secondary <==> n % 2 == 1,
{
    assert forall|t: nat| t < n implies #[trigger] reduction_source_for(t) == holder_after(t) by {
        lemma_holder_after(t);
    }
    lemma_holder_after(n);
}

/// After `n` iterations the data lies in the secondary array exactly when
/// `n` is odd.
proof fn lemma_holder_after(n: nat)
    ensures
        holder_after(n) == (if n % 2 == 1 {
            ShadowMapTexture::Secondary
        } else {
            ShadowMapTexture::Primary
        }),
{
    if n > 0 {
        let s = (n - 1) as nat;
        assert(n % 2 == 1 <==> s % 2 == 0) by {
            assert(n == s + 1);
        }
        assert(holder_after(n) == reduction_target_for(s));
    }
}

/// Reads and writes of one compute dispatch.
#[derive(Clone, Copy, PartialEq, Eq, Debug, Structural)]
pub struct ComputeDispatch {
    pub source: ShadowMapTexture,
    pub target: ShadowMapTexture,
    /// Byte offset bound for the dispatch's dynamic uniform.
    pub uniform_offset: u32,
    pub groups: WorkGroupCount,
}

/// One dispatch of the prepass: a light's layer.
#[derive(Clone, Copy, PartialEq, Eq, Debug, Structural)]
pub struct LightDispatch {
    pub entity: u64,
    /// Byte offset of the light's record in the meta buffer.
    pub meta_offset: u32,
    pub groups: WorkGroupCount,
}

/// What a pass needs from the frame before it can run.
#[derive(Clone, Copy, PartialEq, Eq, Debug, Structural)]
pub struct PassInputs {
    /// The view being rendered drives the shadow passes.
    pub is_shadow_view: bool,
    /// Number of lights with a prepared shadow view.
    pub light_views: usize,
    /// The pass's pipeline has finished compiling.
    pub pipeline_ready: bool,
}

impl PassInputs {
    /// The pass runs this frame.
    pub open spec fn all_ready(&self) -> bool {
        self.is_shadow_view && self.light_views > 0 && self.pipeline_ready
    }
}

/// The lights of `lights` whose flag in `ready` is set, in order.
pub open spec fn ready_lights(lights: Seq<u64>, ready: Seq<bool>) -> Seq<u64>
    decreases lights.len(),
{
    if lights.len() == 0 {
        Seq::empty()
    } else {
        let rest = ready_lights(lights.drop_last(), ready.drop_last());
        if ready.last() {
            rest.push(lights.last())
        } else {
            rest
        }
    }
}

/// The lights the mesh pass renders, in order: those visible from the
/// shadow view whose shadow-view attachment is prepared; a light without one
/// is skipped for this frame.
pub fn plan_mesh_pass(is_shadow_view: bool, visible_lights: &Vec<u64>, has_shadow_view: &Vec<
    bool,
>) -> (r: Vec<u64>)
    requires
        visible_lights@.len() == has_shadow_view@.len(),
    ensures
        !is_shadow_view ==> r@.len() == 0,
        is_shadow_view ==> r@ == ready_lights(visible_lights@, has_shadow_view@),
{
    let mut r: Vec<u64> = Vec::new();
    if !is_shadow_view {
        return r;
    }
    let mut i: usize = 0;
    while i < visible_lights.len()
        invariant
            i <= visible_lights@.len(),
            visible_lights@.len() == has_shadow_view@.len(),
            r@ == ready_lights(visible_lights@.subrange(0, i as int), has_shadow_view@.subrange(0, i as int)),
        decreases visible_lights@.len() - i,
    {
        assert(visible_lights@.subrange(0, i + 1).drop_last() =~= visible_lights@.subrange(0, i as int));
        assert(has_shadow_view@.subrange(0, i + 1).drop_last() =~= has_shadow_view@.subrange(0, i as int));
        if has_shadow_view[i] {
            r.push(visible_lights[i]);
        }
        i = i + 1;
    }
    assert(visible_lights@.subrange(0, i as int) =~= visible_lights@);
    assert(has_shadow_view@.subrange(0, i as int) =~= has_shadow_view@);
    r
}

/// The prepass: one dispatch per prepared light, over that light's layer,
/// bound to the light's record; none while the pipeline compiles or before
/// the arrays exist.
pub fn plan_prepass(pipeline_ready: bool, storage: &ShadowMap2dStorage, slots: &Vec<LightSlot>) -> (r:
    Vec<LightDispatch>)
    requires
        storage.wf(),
    ensures
        !(pipeline_ready && storage.allocated()) ==> r@.len() == 0,
        pipeline_ready && storage.allocated() ==> {
            &&& r@.len() == slots@.len()
            &&& forall|i: int|
                0 <= i < slots@.len() ==> #[trigger] r@[i] == (LightDispatch {
                    entity: slots@[i].entity,
                    meta_offset: slots@[i].meta_offset,
                    groups: storage.per_light(),
                })
        },
{
    let mut r: Vec<LightDispatch> = Vec::new();
    if !(pipeline_ready && storage.is_allocated()) {
        return r;
    }
    let groups = storage.work_group_count_per_light();
    let mut i: usize = 0;
    while i < slots.len()
        invariant
            i <= slots@.len(),
            groups == storage.per_light(),
            r@.len() == i,
            forall|k: int|
                0 <= k < i ==> #[trigger] r@[k] == (LightDispatch {
                    entity: slots@[k].entity,
                    meta_offset: slots@[k].meta_offset,
                    groups: storage.per_light(),
                }),
        decreases slots@.len() - i,
    {
        r.push(LightDispatch { entity: slots[i].entity, meta_offset: slots[i].meta_offset, groups });
        i = i + 1;
    }
    r
}

/// The distortion pass: one dispatch over every layer, from the primary
/// array into the secondary one.
pub fn plan_distort_pass(inputs: PassInputs, storage: &ShadowMap2dStorage) -> (r: Option<ComputeDispatch>)
    requires
        storage.wf(),
    ensures
        r.is_some() <==> inputs.all_ready() && storage.allocated(),
        r.is_some() ==> r.unwrap() == (ComputeDispatch {
            source: ShadowMapTexture::Primary,
            target: ShadowMapTexture::Secondary,
            uniform_offset: 0,
            groups: storage.total(),
        }),
{
    if inputs.is_shadow_view && inputs.light_views > 0 && inputs.pipeline_ready && storage.is_allocated() {
        Some(
            ComputeDispatch {
                source: ShadowMapTexture::Primary,
                target: ShadowMapTexture::Secondary,
                uniform_offset: 0,
                groups: storage.work_group_count_total(),
            },
        )
    } else {
        None
    }
}

/// The reduction: `log2(size)` dispatches over every layer, iteration `t`
/// reading the array that iteration `t - 1` wrote and bound to the slot of
/// the iteration number `t`. None while its inputs are not ready, before the arrays
/// exist, or while the iteration buffer does not match the arrays.
pub fn plan_reduction_pass(
    inputs: PassInputs,
    storage: &ShadowMap2dStorage,
    meta_buffers: &GpuMetaBuffers,
) -> (r: Vec<ComputeDispatch>)
    requires
        storage.wf(),
        meta_buffers.wf(),
    ensures
        !(inputs.all_ready() && storage.allocated() && meta_buffers.reduction_numbers().len()
            == storage.reductions()) ==> r@.len() == 0,
        inputs.all_ready() && storage.allocated() && meta_buffers.reduction_numbers().len()
            == storage.reductions() ==> {
            &&& r@.len() == storage.reductions()
            &&& forall|t: int|
                0 <= t < r@.len() ==> #[trigger] r@[t] == (ComputeDispatch {
                    source: reduction_source_for(t as nat),
                    target: reduction_target_for(t as nat),
                    uniform_offset: slot_offset(t) as u32,
                    groups: storage.total(),
                })
        },
{
    let mut r: Vec<ComputeDispatch> = Vec::new();
    if !(inputs.is_shadow_view && inputs.light_views > 0 && inputs.pipeline_ready
        && storage.is_allocated()) {
        return r;
    }
    let n = storage.num_reductions();
    if meta_buffers.reduction_records().len() != n as usize {
        return r;
    }
    let groups = storage.work_group_count_total();
    let mut t: u32 = 0;
    while t < n
        invariant
            t <= n,
            n == storage.reductions(),
            n as int == meta_buffers.reduction_numbers().len(),
            meta_buffers.wf(),
            groups == storage.total(),
            r@.len() == t,
            forall|k: int|
                0 <= k < t ==> #[trigger] r@[k] == (ComputeDispatch {
                    source: reduction_source_for(k as nat),
                    target: reduction_target_for(k as nat),
                    uniform_offset: slot_offset(k) as u32,
                    groups: storage.total(),
                }),
        decreases n - t,
    {
        let even = t % 2 == 0;
        let source = if even {
            ShadowMapTexture::Primary
        } else {
            ShadowMapTexture::Secondary
        };
        let target = if even {
            ShadowMapTexture::Secondary
        } else {
            ShadowMapTexture::Primary
        };
        let offset = meta_buffers.get_reduction_index(t);
        r.push(ComputeDispatch { source, target, uniform_offset: offset, groups });
        t = t + 1;
    }
    r
}

/// The main composite pass: runs when its inputs are ready and the arrays
/// exist, and samples the array that holds the reduction's result.
pub fn plan_main_pass(inputs: PassInputs, storage: &ShadowMap2dStorage) -> (r: Option<ShadowMapTexture>)
    requires
        storage.wf(),
    ensures
        r.is_some() <==> inputs.all_ready() && storage.allocated(),
        r.is_some() ==> r.unwrap() == final_texture_for(storage.reductions() as nat),
{
    if inputs.is_shadow_view && inputs.light_views > 0 && inputs.pipeline_ready && storage.is_allocated() {
        Some(storage.final_texture_view())
    } else {
        None
    }
}

} // verus!
