//! Verified core of the Redixel engine: asset handles, the per-clip decode
//! registry, plays waiting on a decode and the voices the mixer plays, the
//! fixed-step clock and the order of a frame, CPU-side geometry batching,
//! texture slots, per-frame context requests, dot-path settings and the
//! runtime's lifecycle decisions.

pub mod audio;
pub mod batch;
pub mod clock;
pub mod context;
pub mod error;
pub mod frame;
pub mod pending;
pub mod playback;
pub mod registry;
pub mod runtime;
pub mod settings;
pub mod texture;
pub mod voices;
