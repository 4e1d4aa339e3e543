//! Motion presets for common transition animations.

use vstd::prelude::*;

verus! {

/// Motion preset types for common transition animations.
#[derive(Debug, Clone, Copy, PartialEq, Eq)]
pub enum MotionPreset {
    /// Fade in: opacity 0→1, 300ms, ease-out
    FadeIn,
    /// Fade out: opacity 1→0, 200ms, ease-in
    FadeOut,
    /// Slide up: translateY 20→0, 350ms, spring(fluid)
    SlideUp,
    /// Slide down: translateY -20→0, 350ms, spring(fluid)
    SlideDown,
    /// Slide left: translateX 20→0, 350ms, spring(fluid)
    SlideLeft,
    /// Slide right: translateX -20→0, 350ms, spring(fluid)
    SlideRight,
    /// Scale in: scale 0.8→1.0, 300ms, spring(snappy)
    ScaleIn,
    /// Scale out: scale 1.0→0.8, 200ms, spring(snappy)
    ScaleOut,
    /// Bounce in: scale 0→1, 500ms, spring(bouncy)
    BounceIn,
    /// Rotate in: rotate -15°→0, 400ms, spring(snappy)
    RotateIn,
    /// Rotate out: rotate 0→-15°, 200ms, spring(snappy)
    RotateOut,
}

} // verus!
