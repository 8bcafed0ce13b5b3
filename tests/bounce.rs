use rtlib::bounce::{blend_mode, reflection_bounce, refraction_bounce, Blend, Bounce};

#[test]
fn no_bounce_left_is_black() {
    for reflective in [false, true] {
        assert_eq!(reflection_bounce(reflective, 0), Bounce::Black);
        for total_internal in [false, true] {
            assert_eq!(refraction_bounce(reflective, total_internal, 0), Bounce::Black);
        }
    }
}

#[test]
fn reflective_surface_traces_one_bounce_less() {
    assert_eq!(reflection_bounce(true, 5), Bounce::Trace(4));
    assert_eq!(reflection_bounce(true, 1), Bounce::Trace(0));
    assert_eq!(reflection_bounce(false, 5), Bounce::Black);
}

#[test]
fn transparent_surface_traces_one_bounce_less() {
    assert_eq!(refraction_bounce(true, false, 5), Bounce::Trace(4));
    assert_eq!(refraction_bounce(false, false, 5), Bounce::Black);
}

#[test]
fn total_internal_reflection_is_black() {
    assert_eq!(refraction_bounce(true, true, 5), Bounce::Black);
}

#[test]
fn blending() {
    assert_eq!(blend_mode(true, true), Blend::Fresnel);
    assert_eq!(blend_mode(true, false), Blend::Sum);
    assert_eq!(blend_mode(false, true), Blend::Sum);
    assert_eq!(blend_mode(false, false), Blend::Sum);
}

#[test]
fn opaque_matte_surface_adds_nothing() {
    assert_eq!(reflection_bounce(false, 5), Bounce::Black);
    assert_eq!(refraction_bounce(false, false, 5), Bounce::Black);
    assert_eq!(blend_mode(false, false), Blend::Sum);
}
