//! The engine's error values that carry only plain data.

use vstd::prelude::*;

verus! {

/// Why an engine operation failed.
#[derive(Debug)]
pub enum RedixelError {
    /// The surface must be configured again before it can be drawn to.
    SurfaceNeedsReconfiguration,
    /// The surface timed out or is occluded; the frame is skipped.
    SurfaceIgnored,
    /// The surface reported a validation error.
    SurfaceValidation,
    /// An image could not be decoded.
    TextureDecode(String),
    /// The audio output device could not be opened or driven.
    AudioDevice(String),
    /// An audio clip could not be decoded.
    AudioDecode(String),
    /// The logger could not be installed.
    Logger(String),
    /// A placeholder error used by tests.
    Dummy,
}

} // verus!
