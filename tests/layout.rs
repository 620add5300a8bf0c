use incandescent::config::ShadowMap2dConfig;
use incandescent::meta::{GpuMetaBuffers, GpuShadowMapMeta};
use incandescent::storage::{ShadowMap2dMeta, ShadowMap2dStorage};

#[test]
fn meta_record_uses_uniform_layout() {
    let meta = GpuShadowMapMeta {
        index: 0x0403_0201,
        size: 512,
        offset: [0.5f32.to_bits(), (-0.25f32).to_bits()],
        bias: 0.005f32.to_bits(),
        alpha_threshold: 0.9f32.to_bits(),
        pcf_samples: 32,
        pcf_radius: 2.0f32.to_bits(),
    };
    let bytes = meta.to_bytes();
    assert_eq!(bytes.len(), 32);
    assert_eq!(&bytes[0..4], &[1, 2, 3, 4]);
    assert_eq!(&bytes[4..8], &512u32.to_le_bytes());
    assert_eq!(&bytes[8..12], &0.5f32.to_le_bytes());
    assert_eq!(&bytes[12..16], &(-0.25f32).to_le_bytes());
    assert_eq!(&bytes[16..20], &0.005f32.to_le_bytes());
    assert_eq!(&bytes[20..24], &0.9f32.to_le_bytes());
    assert_eq!(&bytes[24..28], &32u32.to_le_bytes());
    assert_eq!(&bytes[28..32], &2.0f32.to_le_bytes());
}

#[test]
fn meta_buffer_places_records_in_aligned_slots() {
    let config = ShadowMap2dConfig::default();
    let mut buffers = GpuMetaBuffers::new();
    buffers.push_light_meta(GpuShadowMapMeta::from_config(0, &config));
    buffers.push_light_meta(GpuShadowMapMeta::from_config(1, &config));
    let bytes = buffers.light_meta_bytes();
    assert_eq!(bytes.len(), 512);
    assert_eq!(&bytes[0..32], GpuShadowMapMeta::from_config(0, &config).to_bytes().as_slice());
    assert!(bytes[32..256].iter().all(|&b| b == 0));
    assert_eq!(&bytes[256..260], &1u32.to_le_bytes());
    assert_eq!(&bytes[260..264], &512u32.to_le_bytes());
    assert!(bytes[288..512].iter().all(|&b| b == 0));
}

#[test]
fn reduction_buffer_holds_iteration_numbers() {
    let mut storage = ShadowMap2dStorage::new();
    let mut buffers = GpuMetaBuffers::new();
    storage.try_update(ShadowMap2dMeta { count: 1, size: 8 }, &mut buffers);
    let bytes = buffers.reduction_bytes();
    assert_eq!(bytes.len(), 3 * 256);
    for t in 0..3usize {
        assert_eq!(&bytes[t * 256..t * 256 + 4], &(t as u32).to_le_bytes());
        assert!(bytes[t * 256 + 4..(t + 1) * 256].iter().all(|&b| b == 0));
    }
    assert!(GpuMetaBuffers::new().light_meta_bytes().is_empty());
}
