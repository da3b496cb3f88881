//! Control logic of a Monte Carlo path tracer: sampler bookkeeping, image
//! tiling, the integrator's per-path decisions and mesh face validation.
//! Everything here works on integers, booleans and sequences; the floating
//! point work (geometry, scattering, radiance) is done by the caller.

pub mod tracer;
pub mod sampler;
pub mod renderer;
pub mod mesh;
