//! Shadow-map settings. Values that the shaders read as `f32` are kept here
//! as their IEEE-754 bit patterns: this library copies them into uniform
//! records and never computes with them.

use vstd::prelude::*;

verus! {

/// Largest number of percentage-closer-filtering taps the main pass supports.
pub const MAX_PCF_SAMPLES: u32 = 32;

/// Settings of percentage-closer filtering.
#[derive(Clone, Copy, PartialEq, Eq, Debug)]
pub struct PcfConfig {
    /// Seed of the Poisson-disk tap pattern.
    pub seed: u32,
    /// Number of taps per shaded pixel.
    pub samples: u32,
    /// Bit pattern of the `f32` tap radius, in shadow-map texels.
    pub radius: u32,
}

/// Global shadow-map configuration.
#[derive(Clone, Copy, PartialEq, Eq, Debug)]
pub struct ShadowMap2dConfig {
    /// Bit pattern of the `f32` near plane of every light's projection.
    pub near: u32,
    /// Bit pattern of the `f32` far plane of every light's projection.
    pub far: u32,
    /// Side length of each light's shadow map, in texels; a power of two.
    pub size: u32,
    /// Bit patterns of the `f32` sub-pixel offset, x then y.
    pub offset: [u32; 2],
    /// Bit pattern of the `f32` depth bias.
    pub bias: u32,
    /// Bit pattern of the `f32` alpha below which a texel does not occlude.
    pub alpha_threshold: u32,
    /// Filtering settings.
    pub pcf: PcfConfig,
}

impl Default for PcfConfig {
    /// Seed 1, 32 taps, radius 2.0.
    fn default() -> (r: PcfConfig)
        ensures
            r.seed == 1,
            r.samples == MAX_PCF_SAMPLES,
            r.radius == 0x4000_0000,
    {
        PcfConfig { seed: 1, samples: MAX_PCF_SAMPLES, radius: 0x4000_0000 }
    }
}

impl Default for ShadowMap2dConfig {
    /// Near -1000.0, far 1000.0, 512 texels, no offset, bias 0.005,
    /// alpha threshold 0.9 and the default filtering.
    fn default() -> (r: ShadowMap2dConfig)
        ensures
            r.near == 0xc47a_0000,
            r.far == 0x447a_0000,
            r.size == 512,
            r.offset[0] == 0 && r.offset[1] == 0,
            r.bias == 0x3ba3_d70a,
            r.alpha_threshold == 0x3f66_6666,
            r.pcf.seed == 1 && r.pcf.samples == MAX_PCF_SAMPLES && r.pcf.radius == 0x4000_0000,
    {
        ShadowMap2dConfig {
            near: 0xc47a_0000,
            far: 0x447a_0000,
            size: 512,
            offset: [0, 0],
            bias: 0x3ba3_d70a,
            alpha_threshold: 0x3f66_6666,
            pcf: PcfConfig::default(),
        }
    }
}

} // verus!
