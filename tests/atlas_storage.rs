use incandescent::atlas::{groups_for_extent, reductions_for_size};
use incandescent::meta::GpuMetaBuffers;
use incandescent::storage::{ShadowMap2dMeta, ShadowMap2dStorage, ShadowMapTexture, WorkGroupCount};

#[test]
fn reductions_are_log2_of_size() {
    assert_eq!(reductions_for_size(1), 0);
    assert_eq!(reductions_for_size(2), 1);
    assert_eq!(reductions_for_size(16), 4);
    assert_eq!(reductions_for_size(512), 9);
    assert_eq!(reductions_for_size(1 << 31), 31);
}

#[test]
fn work_groups_round_up() {
    assert_eq!(groups_for_extent(0), 0);
    assert_eq!(groups_for_extent(1), 1);
    assert_eq!(groups_for_extent(16), 1);
    assert_eq!(groups_for_extent(17), 2);
    assert_eq!(groups_for_extent(512), 32);
}

#[test]
fn first_update_allocates_and_sizes_dispatches() {
    let mut storage = ShadowMap2dStorage::new();
    let mut buffers = GpuMetaBuffers::new();
    assert!(!storage.is_allocated());
    let meta = ShadowMap2dMeta { count: 3, size: 512 };
    assert!(storage.try_update(meta, &mut buffers));
    assert!(storage.is_allocated());
    assert_eq!(storage.current_meta(), meta);
    assert_eq!(storage.num_reductions(), 9);
    assert_eq!(storage.work_group_count_per_light(), WorkGroupCount { x: 32, y: 32, z: 1 });
    assert_eq!(storage.work_group_count_total(), WorkGroupCount { x: 32, y: 32, z: 3 });
    assert_eq!(buffers.reduction_records(), &vec![0u32, 1, 2, 3, 4, 5, 6, 7, 8]);
    assert_eq!(buffers.get_reduction_index(0), 0);
    assert_eq!(buffers.get_reduction_index(8), 8 * 256);
}

#[test]
fn second_identical_update_allocates_nothing() {
    let mut storage = ShadowMap2dStorage::new();
    let mut buffers = GpuMetaBuffers::new();
    let meta = ShadowMap2dMeta { count: 2, size: 256 };
    let mut allocations = 0;
    if storage.try_update(meta, &mut buffers) {
        allocations += 1;
    }
    if storage.try_update(meta, &mut buffers) {
        allocations += 1;
    }
    assert_eq!(allocations, 1);
    assert_eq!(storage.num_reductions(), 8);
}

#[test]
fn changed_identity_reallocates() {
    let mut storage = ShadowMap2dStorage::new();
    let mut buffers = GpuMetaBuffers::new();
    assert!(storage.try_update(ShadowMap2dMeta { count: 2, size: 256 }, &mut buffers));
    assert!(storage.try_update(ShadowMap2dMeta { count: 3, size: 256 }, &mut buffers));
    assert!(storage.try_update(ShadowMap2dMeta { count: 3, size: 64 }, &mut buffers));
    assert_eq!(storage.num_reductions(), 6);
    assert_eq!(buffers.reduction_records().len(), 6);
    assert_eq!(storage.work_group_count_total(), WorkGroupCount { x: 4, y: 4, z: 3 });
    assert!(!storage.try_update(ShadowMap2dMeta { count: 3, size: 64 }, &mut buffers));
}

#[test]
fn final_texture_is_secondary_iff_reductions_odd() {
    let expected = [
        (1u32, ShadowMapTexture::Primary),
        (2, ShadowMapTexture::Secondary),
        (4, ShadowMapTexture::Primary),
        (8, ShadowMapTexture::Secondary),
        (16, ShadowMapTexture::Primary),
    ];
    for (n, (size, texture)) in expected.iter().enumerate() {
        let mut storage = ShadowMap2dStorage::new();
        let mut buffers = GpuMetaBuffers::new();
        storage.try_update(ShadowMap2dMeta { count: 1, size: *size }, &mut buffers);
        assert_eq!(storage.num_reductions() as usize, n);
        assert_eq!(storage.final_texture_view(), *texture);
    }
}

#[test]
fn small_atlas_still_gets_one_group() {
    let mut storage = ShadowMap2dStorage::new();
    let mut buffers = GpuMetaBuffers::new();
    storage.try_update(ShadowMap2dMeta { count: 5, size: 8 }, &mut buffers);
    assert_eq!(storage.work_group_count_per_light(), WorkGroupCount { x: 1, y: 1, z: 1 });
    assert_eq!(storage.work_group_count_total(), WorkGroupCount { x: 1, y: 1, z: 5 });
}
