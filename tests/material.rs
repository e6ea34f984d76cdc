use raytracer::material::{dielectric_bounce, dielectric_side, Bounce, Side};

#[test]
fn total_internal_reflection_always_reflects() {
    assert_eq!(dielectric_bounce(true, false), Bounce::Reflect);
    assert_eq!(dielectric_bounce(true, true), Bounce::Reflect);
}

#[test]
fn draw_below_reflectance_reflects() {
    assert_eq!(dielectric_bounce(false, true), Bounce::Reflect);
}

#[test]
fn draw_at_or_above_reflectance_refracts() {
    assert_eq!(dielectric_bounce(false, false), Bounce::Refract);
}

#[test]
fn ray_along_normal_exits() {
    assert_eq!(dielectric_side(true), Side::Exiting);
    assert_eq!(dielectric_side(false), Side::Entering);
}
