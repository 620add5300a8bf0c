//! The cached Poisson-disk tap pattern: regenerated only when the number of
//! filtering taps changes.

use crate::config::ShadowMap2dConfig;
use vstd::prelude::*;

verus! {

/// Cache state of the tap pattern on the GPU: the number of taps it was
/// generated for (0 before the first generation).
pub struct PoissonDiskBuffer {
    count: u32,
}

impl PoissonDiskBuffer {
    /// Number of taps the current pattern holds.
    pub closed spec fn samples(&self) -> u32 {
        self.count
    }

    /// No pattern yet.
    pub fn new() -> (r: PoissonDiskBuffer)
        ensures
            r.samples() == 0,
    {
        PoissonDiskBuffer { count: 0 }
    }

    /// Number of taps the current pattern holds.
    pub fn count(&self) -> (r: u32)
        ensures
            r == self.samples(),
    {
        self.count
    }

    /// Brings the cache to the configured number of taps. Returns whether
    /// the pattern must be generated anew, which is exactly when that
    /// number changed.
    pub fn regen_by_shadow_map(&mut self, config: &ShadowMap2dConfig) -> (r: bool)
        ensures
            r == (old(self).samples() != config.pcf.samples),
            final(self).samples() == config.pcf.samples,
    {
        if self.count == config.pcf.samples {
            return false;
        }
        self.count = config.pcf.samples;
        true
    }
}

} // verus!
