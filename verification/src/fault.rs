//! What can be wrong with a scene.

use vstd::prelude::*;

verus! {

/// Why a scene cannot be rendered.
#[derive(Clone, Copy, Debug, PartialEq, Eq, Structural)]
pub enum SceneError {
    /// A plain colour has a channel below 0 or above 1.
    Color,
    /// A checker pattern has cells of size zero.
    CheckerScale,
    /// A picture used as a texture has no pixels.
    EmptyPicture,
    /// The blur of a metal is below 0 or above 1.
    Fuzz,
    /// A refractive index is zero or negative.
    RefractiveIndex,
    /// The box around a sphere reaches beyond the coordinates there are.
    OutOfBounds,
}

} // verus!
