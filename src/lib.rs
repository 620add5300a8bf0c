//! CPU-side bookkeeping for a 2D shadow-map lighting pipeline: atlas sizing,
//! per-light uniform packing, stable light ordering, caster visibility and
//! the schedule of compute passes that turn occluder silhouettes into
//! shadow maps.

pub mod atlas;
pub mod config;
pub mod meta;
pub mod storage;
pub mod lights;
pub mod passes;
pub mod visibility;
pub mod poisson;
