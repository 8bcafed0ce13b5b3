//! The decisions of recursive shading.
//!
//! Shading a hit may cast two more rays, one reflected and one refracted, each
//! shaded in turn with one bounce less. Whether such a ray is cast, and how
//! its color is combined with the light that reaches the surface directly, is
//! decided here from the surface's properties and the bounces left. A ray with
//! no bounce left is never cast, so the recursion ends whatever the scene.
use vstd::prelude::*;

verus! {

/// What becomes of a secondary ray.
#[derive(PartialEq, Eq, Structural, Clone, Copy, Debug)]
pub enum Bounce {
    /// No ray is cast; it contributes black.
    Black,
    /// The ray is cast, and what it hits is shaded with this many bounces left.
    Trace(u32),
}

/// How the colors of a hit are combined.
#[derive(PartialEq, Eq, Structural, Clone, Copy, Debug)]
pub enum Blend {
    /// Direct light, reflected color and refracted color are added up.
    Sum,
    /// Direct light is added to the reflected and refracted colors weighted by
    /// the Fresnel reflectance (Schlick's approximation) and its complement.
    Fresnel,
}

/// The reflected ray of a surface that is `reflective` (its reflectivity is
/// above zero), shaded with `depth` bounces left.
pub open spec fn reflection(reflective: bool, depth: u32) -> Bounce {
    if reflective && depth > 0 {
        Bounce::Trace((depth - 1) as u32)
    } else {
        Bounce::Black
    }
}

/// The refracted ray of a surface that is `transparent` (its transparency is
/// above zero), shaded with `depth` bounces left; `total_internal` holds where
/// Snell's law leaves no refracted ray (the squared sine of the refraction
/// angle is at least one).
pub open spec fn refraction(transparent: bool, total_internal: bool, depth: u32) -> Bounce {
    if transparent && depth > 0 && !total_internal {
        Bounce::Trace((depth - 1) as u32)
    } else {
        Bounce::Black
    }
}

/// How the colors of a hit on a surface are combined.
pub open spec fn blend(reflective: bool, transparent: bool) -> Blend {
    if reflective && transparent {
        Blend::Fresnel
    } else {
        Blend::Sum
    }
}

/// Decides the reflected ray of a hit.
pub fn reflection_bounce(reflective: bool, depth: u32) -> (b: Bounce)
    ensures
        b == reflection(reflective, depth),
{
    if !reflective || depth == 0 {
        Bounce::Black
    } else {
        Bounce::Trace(depth - 1)
    }
}

/// Decides the refracted ray of a hit.
pub fn refraction_bounce(transparent: bool, total_internal: bool, depth: u32) -> (b: Bounce)
    ensures
        b == refraction(transparent, total_internal, depth),
{
    if !transparent || depth == 0 || total_internal {
        Bounce::Black
    } else {
        Bounce::Trace(depth - 1)
    }
}

/// Decides how the colors of a hit are combined.
pub fn blend_mode(reflective: bool, transparent: bool) -> (m: Blend)
    ensures
        m == blend(reflective, transparent),
{
    if reflective && transparent {
        Blend::Fresnel
    } else {
        Blend::Sum
    }
}

/// With no bounce left, neither a reflected nor a refracted ray is cast,
/// whatever the surface: both contribute black.
pub proof fn lemma_no_bounce_left_is_black(
    reflective: bool,
    transparent: bool,
    total_internal: bool,
)
    ensures
        reflection(reflective, 0) == Bounce::Black,
        refraction(transparent, total_internal, 0) == Bounce::Black,
{
}

/// Every ray that is cast is shaded with fewer bounces left than the hit that
/// cast it, so a chain of bounces from a pixel is at most as long as the
/// recursion limit.
pub proof fn lemma_bounces_decrease(
    reflective: bool,
    transparent: bool,
    total_internal: bool,
    depth: u32,
)
    ensures
        reflection(reflective, depth) matches Bounce::Trace(d) ==> d < depth,
        refraction(transparent, total_internal, depth) matches Bounce::Trace(d) ==> d < depth,
{
}

/// A surface that neither reflects nor lets light through casts no secondary
/// ray and adds nothing to its direct light: its reflected and refracted
/// contributions are black and the colors are simply summed.
pub proof fn lemma_opaque_matte_is_direct_only(total_internal: bool, depth: u32)
    ensures
        reflection(false, depth) == Bounce::Black,
        refraction(false, total_internal, depth) == Bounce::Black,
        blend(false, false) == Blend::Sum,
{
}

} // verus!
