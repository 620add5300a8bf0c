use incandescent::config::ShadowMap2dConfig;
use incandescent::lights::{prepare_lights, LightKey};
use incandescent::meta::GpuMetaBuffers;
use incandescent::passes::{
    pass_order, plan_distort_pass, plan_main_pass, plan_mesh_pass, plan_prepass,
    plan_reduction_pass, select_shadow_view, ComputeDispatch, PassInputs, Shadow2dNode,
};
use incandescent::poisson::PoissonDiskBuffer;
use incandescent::storage::{ShadowMap2dMeta, ShadowMap2dStorage, ShadowMapTexture, WorkGroupCount};
use incandescent::visibility::{
    caster_is_visible, check_caster_visibility, BoundsTest, RenderLayers, ShadowCaster2d,
    ShadowCaster2dBundle, ShadowCaster2dVisibility, ShadowCasterCandidate,
};

fn caster(entity: u64, bounds: Option<BoundsTest>, exempt: bool) -> ShadowCasterCandidate {
    ShadowCasterCandidate {
        entity,
        inherited_visible: true,
        layers: RenderLayers::default(),
        no_frustum_culling: exempt,
        bounds,
    }
}

const INSIDE: BoundsTest = BoundsTest { intersects_sphere: true, intersects_obb: true };
const OUTSIDE_SPHERE: BoundsTest = BoundsTest { intersects_sphere: false, intersects_obb: false };

#[test]
fn caster_outside_light_range_is_culled() {
    // A caster centred at (300, 0) with half extent 10 misses the sphere of a
    // light at the origin with range 200.
    let view = RenderLayers::default();
    let far_caster = caster(1, Some(OUTSIDE_SPHERE), false);
    assert!(!caster_is_visible(&view, &far_caster));
    let mut seen = vec![ShadowCaster2dVisibility(false)];
    let visible = check_caster_visibility(None, &vec![far_caster], &mut seen);
    assert!(visible.is_empty());
    assert_eq!(seen, vec![ShadowCaster2dVisibility(false)]);
}

#[test]
fn exempt_caster_is_always_visible() {
    let exempt = caster(2, Some(OUTSIDE_SPHERE), true);
    let no_box_exempt = caster(3, None, true);
    let mut seen = vec![ShadowCaster2dVisibility(false); 2];
    let visible = check_caster_visibility(None, &vec![exempt, no_box_exempt], &mut seen);
    assert_eq!(visible, vec![2, 3]);
    assert_eq!(seen, vec![ShadowCaster2dVisibility(true); 2]);
}

#[test]
fn hidden_unboxed_and_other_layer_casters_are_excluded() {
    let mut hidden = caster(1, Some(INSIDE), false);
    hidden.inherited_visible = false;
    let unboxed = caster(2, None, false);
    let mut other_layer = caster(3, Some(INSIDE), true);
    other_layer.layers = RenderLayers { mask: 0b10 };
    let obb_miss = caster(4, Some(BoundsTest { intersects_sphere: true, intersects_obb: false }), false);
    let inside = caster(5, Some(INSIDE), false);
    let casters = vec![hidden, unboxed, other_layer, obb_miss, inside];
    let mut seen = vec![ShadowCaster2dVisibility(false); 5];
    let visible = check_caster_visibility(None, &casters, &mut seen);
    assert_eq!(visible, vec![5]);
    let mut seen = vec![ShadowCaster2dVisibility(false); 5];
    let visible = check_caster_visibility(Some(RenderLayers { mask: 0b11 }), &casters, &mut seen);
    assert_eq!(visible, vec![3, 5]);
    assert_eq!(seen[2], ShadowCaster2dVisibility(true));
}

#[test]
fn seen_flag_accumulates_over_lights() {
    let casters = vec![caster(1, Some(INSIDE), false), caster(2, Some(OUTSIDE_SPHERE), false)];
    let mut seen = vec![ShadowCaster2dVisibility(false), ShadowCaster2dVisibility(true)];
    check_caster_visibility(None, &casters, &mut seen);
    assert_eq!(seen, vec![ShadowCaster2dVisibility(true), ShadowCaster2dVisibility(true)]);
}

#[test]
fn layers_intersect_by_mask() {
    let a = RenderLayers { mask: 0b0101 };
    assert!(a.intersects(&RenderLayers { mask: 0b0100 }));
    assert!(!a.intersects(&RenderLayers { mask: 0b1010 }));
    assert_eq!(RenderLayers::default(), RenderLayers { mask: 1 });
    assert_eq!(ShadowCaster2dBundle::default().shadow_caster, ShadowCaster2d);
}

#[test]
fn passes_run_in_pipeline_order() {
    assert_eq!(
        pass_order(),
        vec![
            Shadow2dNode::Shadow2dMeshPass,
            Shadow2dNode::Shadow2dPrepass,
            Shadow2dNode::Shadow2dDistortPass,
            Shadow2dNode::Shadow2dReductionPass,
            Shadow2dNode::Shadow2dMainPass,
        ]
    );
    assert_eq!(select_shadow_view(&vec![9, 4]), Some(9));
    assert_eq!(select_shadow_view(&Vec::new()), None);
}

#[test]
fn reduction_ping_pongs_from_primary() {
    let mut storage = ShadowMap2dStorage::new();
    let mut buffers = GpuMetaBuffers::new();
    storage.try_update(ShadowMap2dMeta { count: 2, size: 8 }, &mut buffers);
    let inputs = PassInputs { is_shadow_view: true, light_views: 2, pipeline_ready: true };
    let plan = plan_reduction_pass(inputs, &storage, &buffers);
    let groups = WorkGroupCount { x: 1, y: 1, z: 2 };
    assert_eq!(
        plan,
        vec![
            ComputeDispatch { source: ShadowMapTexture::Primary, target: ShadowMapTexture::Secondary, uniform_offset: 0, groups },
            ComputeDispatch { source: ShadowMapTexture::Secondary, target: ShadowMapTexture::Primary, uniform_offset: 256, groups },
            ComputeDispatch { source: ShadowMapTexture::Primary, target: ShadowMapTexture::Secondary, uniform_offset: 512, groups },
        ]
    );
    assert_eq!(plan_main_pass(inputs, &storage), Some(ShadowMapTexture::Secondary));
    assert_eq!(plan.last().unwrap().target, storage.final_texture_view());
}

#[test]
fn passes_skip_when_inputs_are_missing() {
    let mut storage = ShadowMap2dStorage::new();
    let mut buffers = GpuMetaBuffers::new();
    let open = PassInputs { is_shadow_view: true, light_views: 1, pipeline_ready: true };
    assert!(plan_reduction_pass(open, &storage, &buffers).is_empty());
    assert_eq!(plan_distort_pass(open, &storage), None);
    assert_eq!(plan_main_pass(open, &storage), None);
    storage.try_update(ShadowMap2dMeta { count: 1, size: 4 }, &mut buffers);
    let compiling = PassInputs { pipeline_ready: false, ..open };
    let no_lights = PassInputs { light_views: 0, ..open };
    let other_view = PassInputs { is_shadow_view: false, ..open };
    for inputs in [compiling, no_lights, other_view] {
        assert!(plan_reduction_pass(inputs, &storage, &buffers).is_empty());
        assert_eq!(plan_distort_pass(inputs, &storage), None);
        assert_eq!(plan_main_pass(inputs, &storage), None);
    }
    assert_eq!(plan_reduction_pass(open, &storage, &buffers).len(), 2);
    let stale = GpuMetaBuffers::new();
    assert!(plan_reduction_pass(open, &storage, &stale).is_empty());
    assert_eq!(
        plan_distort_pass(open, &storage),
        Some(ComputeDispatch {
            source: ShadowMapTexture::Primary,
            target: ShadowMapTexture::Secondary,
            uniform_offset: 0,
            groups: WorkGroupCount { x: 1, y: 1, z: 1 },
        })
    );
    assert_eq!(plan_main_pass(open, &storage), Some(ShadowMapTexture::Primary));
}

#[test]
fn mesh_pass_skips_lights_without_attachment() {
    let lights = vec![10u64, 11, 12];
    let ready = vec![true, false, true];
    assert_eq!(plan_mesh_pass(true, &lights, &ready), vec![10, 12]);
    assert!(plan_mesh_pass(false, &lights, &ready).is_empty());
}

#[test]
fn prepass_dispatches_each_light_layer() {
    let config = ShadowMap2dConfig::default();
    let mut storage = ShadowMap2dStorage::new();
    let mut buffers = GpuMetaBuffers::new();
    let lights = vec![LightKey { id: 1, entity: 7 }, LightKey { id: 0, entity: 6 }];
    let (slots, _) = prepare_lights(lights, &config, &mut storage, &mut buffers);
    let plan = plan_prepass(true, &storage, &slots);
    assert_eq!(plan.len(), 2);
    assert_eq!(plan[0].entity, 6);
    assert_eq!(plan[1].entity, 7);
    assert_eq!(plan[1].meta_offset, 256);
    assert_eq!(plan[0].groups, WorkGroupCount { x: 32, y: 32, z: 1 });
    assert!(plan_prepass(false, &storage, &slots).is_empty());
}

#[test]
fn poisson_pattern_regenerates_only_on_sample_change() {
    let mut config = ShadowMap2dConfig::default();
    let mut cache = PoissonDiskBuffer::new();
    assert_eq!(cache.count(), 0);
    assert!(cache.regen_by_shadow_map(&config));
    assert!(!cache.regen_by_shadow_map(&config));
    config.pcf.seed = 9;
    assert!(!cache.regen_by_shadow_map(&config));
    config.pcf.samples = 16;
    assert!(cache.regen_by_shadow_map(&config));
    assert_eq!(cache.count(), 16);
}
