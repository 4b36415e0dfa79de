//! Depth ordering and draw orchestration for Gaussian splat clouds.
//!
//! The library holds the host-side model of the GPU radix sort (key
//! derivation, digit passes over a ping-pong pair of entry buffers, the
//! temporal resort window), the sort kernels' compile-time configuration and
//! buffer sizing, the cache of pipeline variants, and the per-entity decisions
//! that lead to one indirect draw per ready cloud.

pub mod buffers;
pub mod cloud;
pub mod defines;
pub mod key;
pub mod pipeline;
pub mod radix;
pub mod render;
