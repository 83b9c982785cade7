use fixray::fp::FpError;
use fixray::{
    checkerboard, fp, m, plane_fn, sphere_fn, trace, v3, Body, Color, Frustum, Material, Object,
    Ray, Scene, FP, V3,
};

#[test]
fn test_fp() {
    assert!(fp(1) + fp(1) == fp(2));

    assert!(fp(10000).sqrt().unwrap().to_i32() == 100);
}

#[test]
fn fp_sum_of_ints() {
    assert_eq!(fp(3) + fp(4), fp(7));
    assert_eq!(fp(-5) + fp(2), fp(-3));
    assert_eq!(fp(7) - fp(9), fp(-2));
}

#[test]
fn fp_times_two() {
    assert_eq!(fp(7) * fp(2), fp(14));
    assert_eq!(fp(-3) * fp(2), fp(-6));
}

#[test]
fn fp_mul_rescales() {
    // 1.5 * 2.5 == 3.75
    assert_eq!(FP(384) * FP(640), FP(960));
    // rounding is downward: -1/256 * 1/2 == -1/512, which rounds to -1/256
    assert_eq!(FP(-1) * FP(128), FP(-1));
}

#[test]
fn fp_div_self_is_one() {
    assert_eq!(fp(5) / fp(5), fp(1));
    assert_eq!(FP(-37).checked_div(FP(-37)), Ok(fp(1)));
    assert_eq!(FP(1).checked_div(FP(1)), Ok(fp(1)));
}

#[test]
fn fp_div_rounds_toward_zero() {
    assert_eq!(fp(1) / fp(3), FP(85));
    assert_eq!(fp(-1) / fp(3), FP(-85));
}

#[test]
fn fp_div_by_zero_is_an_error() {
    assert_eq!(fp(1).checked_div(FP(0)), Err(FpError::DivisionByZero));
}

#[test]
fn fp_div_operator_saturates_on_zero() {
    assert_eq!(fp(1) / FP(0), FP(i32::MAX));
    assert_eq!(FP(0) / FP(0), FP(i32::MAX));
    assert_eq!(fp(-1) / FP(0), FP(i32::MIN));
}

#[test]
fn fp_sqrt_negative_is_an_error() {
    assert_eq!(FP(-1).sqrt(), Err(FpError::DomainError));
    assert_eq!(fp(-4).sqrt(), Err(FpError::DomainError));
}

#[test]
fn fp_sqrt_of_zero_is_zero() {
    assert_eq!(FP(0).sqrt(), Ok(FP(0)));
}

#[test]
fn fp_sqrt_of_smallest_value_divides_by_zero() {
    // The Newton seed, half of 1/256, rounds to zero.
    assert_eq!(FP(1).sqrt(), Err(FpError::DivisionByZero));
}

#[test]
fn fp_sqrt_small_squares() {
    for n in 1..=100 {
        assert_eq!(fp(n * n).sqrt().unwrap().to_i32(), n, "sqrt of {}", n * n);
    }
}

#[test]
fn fp_to_i32_rounds_down() {
    assert_eq!(FP(511).to_i32(), 1);
    assert_eq!(FP(-1).to_i32(), -1);
    assert_eq!(fp(-3).to_i32(), -3);
}

#[test]
fn fp_abs_values() {
    assert_eq!(FP(-300).abs(), FP(300));
    assert_eq!(FP(300).abs(), FP(300));
    assert_eq!(FP(i32::MIN).abs(), FP(i32::MIN));
}

#[test]
fn fp_wraps_around() {
    assert_eq!(fp(0x80_0000), FP(i32::MIN));
    assert_eq!(FP(i32::MAX) + FP(1), FP(i32::MIN));
    assert_eq!(-FP(i32::MIN), FP(i32::MIN));
}

#[test]
fn v3_dot_is_symmetric() {
    let a = v3(1, -2, 3);
    let b = v3(4, 5, -6);
    assert_eq!(a.dot(&b), b.dot(&a));
    assert_eq!(a.dot(&b), fp(-24));
}

#[test]
fn v3_cross_values() {
    assert_eq!(v3(1, 0, 0).cross(&v3(0, 1, 0)), v3(0, 0, 1));
    assert_eq!(v3(2, 3, 4).cross(&v3(5, 6, 7)), v3(-3, 6, -3));
}

#[test]
fn v3_cross_is_orthogonal() {
    let a = V3::new(FP(300), FP(-1234), FP(77));
    let b = V3::new(FP(-999), FP(45), FP(2000));
    let c = a.cross(&b);
    assert!(c.dot(&a).0.abs() <= 16);
    assert!(c.dot(&b).0.abs() <= 16);
}

#[test]
fn v3_normalized_has_unit_length() {
    let n = v3(3, 4, 0).normalized().unwrap();
    assert!((n.dot(&n).0 - 256).abs() <= 4);
    // 1/9 rounds to 28/256, so the squared length comes out as 248/256.
    let n = v3(8, 4, -1).normalized().unwrap();
    assert_eq!(n, V3::new(FP(224), FP(112), FP(-28)));
    assert_eq!(n.dot(&n), FP(248));
}

#[test]
fn v3_normalized_zero_is_an_error() {
    assert_eq!(v3(0, 0, 0).normalized(), Err(FpError::DivisionByZero));
}

#[test]
fn v3_magnitude() {
    assert_eq!(v3(3, 4, 0).abs(), Ok(fp(5)));
}

#[test]
fn v3_operators() {
    assert_eq!(v3(1, 2, 3) + v3(4, 5, 6), v3(5, 7, 9));
    assert_eq!(v3(1, 2, 3) - v3(4, 5, 6), v3(-3, -3, -3));
    assert_eq!(v3(1, 2, 3) * fp(2), v3(2, 4, 6));
    assert_eq!(-v3(1, -2, 3), v3(-1, 2, -3));
}

#[test]
fn gradient_of_sphere_is_outward_normal() {
    let f = sphere_fn(v3(0, 0, 0), fp(3));
    let g = v3(5, 0, 0).grad(&f).unwrap();
    assert_eq!(g, v3(1, 0, 0));
}

#[test]
fn sphere_and_plane_distances() {
    let s = Object::new(sphere_fn(v3(0, 10, 2), fp(3)), m(Material::Mirror));
    assert_eq!(s.distance(&v3(0, 0, 2)), Ok(fp(7)));
    let p = Object::new(plane_fn(v3(0, 0, 1), fp(1)), m(Material::Mirror));
    assert_eq!(p.distance(&v3(5, 5, 4)), Ok(fp(3)));
    assert_eq!(p.distance(&v3(5, 5, -4)), Ok(fp(-5)));
}

#[test]
fn union_distance_is_minimum() {
    let red = Material::Surface(Color::Red, Color::Red, Color::Red);
    let green = Material::Surface(Color::Green, Color::Green, Color::Green);
    let a = Object::new(sphere_fn(v3(0, 0, 0), fp(1)), m(red));
    let b = Object::new(sphere_fn(v3(10, 0, 0), fp(1)), m(green));
    let u = Scene + a + b;
    assert_eq!(u.distance(&v3(2, 0, 0)), Ok(fp(1)));
    assert_eq!(u.distance(&v3(7, 0, 0)), Ok(fp(2)));
    assert_eq!(u.material(&v3(2, 0, 0)), Ok(red));
    assert_eq!(u.material(&v3(7, 0, 0)), Ok(green));
}

#[test]
fn union_tie_takes_first() {
    let red = Material::Surface(Color::Red, Color::Red, Color::Red);
    let green = Material::Surface(Color::Green, Color::Green, Color::Green);
    let a = Object::new(sphere_fn(v3(0, 0, 0), fp(1)), m(red));
    let b = Object::new(sphere_fn(v3(10, 0, 0), fp(1)), m(green));
    let u = Scene + a + b;
    // Halfway between the two spheres both are 4 units away.
    assert_eq!(u.distance(&v3(5, 0, 0)), Ok(fp(4)));
    assert_eq!(u.material(&v3(5, 0, 0)), Ok(red));
}

#[test]
fn empty_scene_is_far_away() {
    assert_eq!(Scene.distance(&v3(1, 2, 3)), Ok(FP(i32::MAX)));
    assert_eq!(
        Scene.material(&v3(1, 2, 3)),
        Ok(Material::Surface(Color::Cyan, Color::Cyan, Color::Cyan))
    );
}

#[test]
fn checkerboard_alternates() {
    let white = Material::Surface(Color::White, Color::White, Color::Black);
    let green = Material::Surface(Color::Green, Color::Green, Color::Black);
    let f = checkerboard(white, green);
    assert_eq!(f.eval(&v3(1, 1, 0)), white);
    assert_eq!(f.eval(&v3(9, 1, 0)), green);
    assert_eq!(f.eval(&v3(9, 9, 0)), white);
    // Cell indices round down: -9/8 is in cell -2, -1/8 in cell -1.
    assert_eq!(f.eval(&v3(-9, 1, 0)), white);
    assert_eq!(f.eval(&v3(-1, 1, 0)), green);
}

#[test]
fn frustum_center_ray_is_forward() {
    let f = Frustum { origin: v3(0, 0, 4), dir: v3(1, 0, 0), up: v3(0, 0, 1) };
    let r = f.ray(32, 32).unwrap();
    assert_eq!(r.origin, v3(0, 0, 4));
    assert_eq!(r.dir, v3(1, 0, 0));
}

#[test]
fn frustum_offsets_rays() {
    let f = Frustum { origin: v3(0, 0, 0), dir: v3(1, 0, 0), up: v3(0, 0, 1) };
    // Sixteen columns left of the center is one unit to the left (+y).
    let r = f.ray(16, 32).unwrap();
    assert!(r.dir.y.0 > 0 && r.dir.x.0 > 0 && r.dir.z.0 == 0);
    // Thirty-two rows below the center is one unit down.
    let r = f.ray(32, 64).unwrap();
    assert!(r.dir.z.0 < 0 && r.dir.y.0 == 0);
}

#[test]
fn frustum_degenerate_up_is_an_error() {
    let f = Frustum { origin: v3(0, 0, 0), dir: v3(0, 0, 1), up: v3(0, 0, 1) };
    assert_eq!(f.ray(0, 0), Err(FpError::DivisionByZero));
}

#[test]
fn color_codes() {
    assert_eq!(Color::Black.code(), 0);
    assert_eq!(Color::Red.code(), 1);
    assert_eq!(Color::Blue.code(), 4);
    assert_eq!(Color::White.code(), 7);
}

fn down() -> V3 {
    v3(0, 0, -1).normalized().unwrap()
}

#[test]
fn empty_scene_shows_sky() {
    let ray = Ray { origin: v3(0, 0, 3), dir: v3(0, 1, 0) };
    assert_eq!(trace(&Scene, ray, &down()), Ok(Color::Cyan));
    let ray = Ray { origin: v3(5, -7, 1), dir: v3(-1, 1, 1).normalized().unwrap() };
    assert_eq!(trace(&Scene, ray, &down()), Ok(Color::Cyan));
}

#[test]
fn sphere_lit_from_above() {
    let scene = Scene
        + Object::new(
            sphere_fn(v3(0, 10, 2), fp(3)),
            m(Material::Surface(Color::Red, Color::Red, Color::Black)),
        );
    let origin = v3(0, 0, 3);
    let dir = (v3(0, 10, 2) - origin).normalized().unwrap();
    // The hit point faces the camera and slightly up: the normal makes an
    // angle of about -0.1 with the downward light, between -0.5 and 0.
    assert_eq!(trace(&scene, Ray { origin, dir }, &down()), Ok(Color::Red));
}

#[test]
fn sphere_top_is_highlighted() {
    let scene = Scene
        + Object::new(
            sphere_fn(v3(0, 0, 0), fp(3)),
            m(Material::Surface(Color::Yellow, Color::Red, Color::Black)),
        );
    let ray = Ray { origin: v3(0, 0, 10), dir: v3(0, 0, -1) };
    assert_eq!(trace(&scene, ray, &down()), Ok(Color::Yellow));
    let ray = Ray { origin: v3(0, 0, -10), dir: v3(0, 0, 1) };
    assert_eq!(trace(&scene, ray, &down()), Ok(Color::Black));
}

#[test]
fn mirror_reflects_onto_surface() {
    // The mirror's normal where the ray meets it points back and to the
    // left, so the ray turns toward -x, where the second sphere is.
    let mirror = Object::new(sphere_fn(V3::new(FP(543), FP(2335), FP(0)), fp(3)), m(Material::Mirror));
    let target = Object::new(
        sphere_fn(v3(-10, 7, 0), fp(3)),
        m(Material::Surface(Color::Yellow, Color::Red, Color::Black)),
    );
    let scene = Scene + mirror + target;
    let ray = Ray { origin: v3(0, 0, 0), dir: v3(0, 1, 0) };
    let light = v3(-1, 0, 0);
    assert_eq!(trace(&scene, ray, &light), Ok(Color::Yellow));
}

#[test]
fn mirror_alone_shows_tinted_sky() {
    let mirror = Object::new(sphere_fn(v3(0, 10, 0), fp(3)), m(Material::Mirror));
    let scene = Scene + mirror;
    let ray = Ray { origin: v3(0, 0, 0), dir: v3(0, 1, 0) };
    assert_eq!(trace(&scene, ray, &down()), Ok(Color::Blue));
}

#[test]
fn ray_away_from_scene_escapes() {
    let scene = Scene
        + Object::new(
            sphere_fn(v3(0, 10, 2), fp(3)),
            m(Material::Surface(Color::Red, Color::Red, Color::Black)),
        );
    let ray = Ray { origin: v3(0, 0, 3), dir: v3(0, -1, 0) };
    assert_eq!(trace(&scene, ray, &down()), Ok(Color::Cyan));
}

#[test]
fn never_converging_field_is_black() {
    // A field that is everywhere 1/256 away: no surface, no escape.
    let scene = Scene + Object::new(plane_fn(v3(0, 0, 0), FP(-1)), m(Material::Mirror));
    let ray = Ray { origin: v3(0, 0, 0), dir: v3(1, 0, 0) };
    assert_eq!(trace(&scene, ray, &down()), Ok(Color::Black));
}

#[test]
fn trace_reports_faults() {
    // A ray with no direction inside a mirror sphere, at its center: the
    // gradient there is zero, so the reflected direction is zero and cannot
    // be normalized.
    let scene = Scene + Object::new(sphere_fn(v3(0, 0, 0), fp(3)), m(Material::Mirror));
    let ray = Ray { origin: v3(0, 0, 0), dir: v3(0, 0, 0) };
    assert_eq!(trace(&scene, ray, &down()), Err(FpError::DivisionByZero));
}
