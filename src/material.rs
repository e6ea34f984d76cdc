//! The decision of a dielectric (glass) surface between reflection and
//! refraction.
//!
//! Glass always tries to refract. When Snell's law has no solution (total
//! internal reflection) the ray reflects. Otherwise one uniform draw is
//! compared with Schlick's reflectance: below it the ray reflects, else it
//! refracts.
use vstd::prelude::*;

verus! {

/// Which way a ray crosses a dielectric surface, relative to the surface
/// normal that the geometry reported.
#[derive(Clone, Copy, Debug, PartialEq, Eq, Structural)]
pub enum Side {
    /// The ray goes against the normal: it enters the material, the outward
    /// normal is the reported one, and the ratio of indices is `1 / n`.
    Entering,
    /// The ray goes along the normal: it leaves the material, the outward
    /// normal is the reported one negated, and the ratio of indices is `n`.
    Exiting,
}

/// The side of a crossing whose direction has a positive dot product with
/// the normal (`along_normal`) or not.
pub open spec fn side_of(along_normal: bool) -> Side {
    if along_normal {
        Side::Exiting
    } else {
        Side::Entering
    }
}

/// Tells from the sign of `direction . normal` whether a ray enters or
/// leaves a dielectric: a positive product means it leaves.
pub fn dielectric_side(along_normal: bool) -> (s: Side)
    ensures
        s == side_of(along_normal),
        along_normal <==> s == Side::Exiting,
{
    if along_normal {
        Side::Exiting
    } else {
        Side::Entering
    }
}

/// How a ray leaves a dielectric surface.
#[derive(Clone, Copy, Debug, PartialEq, Eq, Structural)]
pub enum Bounce {
    Reflect,
    Refract,
}

/// The bounce taken, given whether refraction is impossible and whether the
/// random draw fell below the reflectance.
pub open spec fn bounce_of(total_internal_reflection: bool, draw_below_reflectance: bool) -> Bounce {
    if total_internal_reflection || draw_below_reflectance {
        Bounce::Reflect
    } else {
        Bounce::Refract
    }
}

/// Chooses between reflection and refraction at a dielectric surface.
pub fn dielectric_bounce(total_internal_reflection: bool, draw_below_reflectance: bool) -> (b: Bounce)
    ensures
        b == bounce_of(total_internal_reflection, draw_below_reflectance),
        total_internal_reflection ==> b == Bounce::Reflect,
        !total_internal_reflection ==> (b == Bounce::Reflect <==> draw_below_reflectance),
{
    if total_internal_reflection || draw_below_reflectance {
        Bounce::Reflect
    } else {
        Bounce::Refract
    }
}

} // verus!
