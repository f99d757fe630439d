//! End-to-end tests: the fixed-point kernel, the torus field, single-ray
//! marches of all three outcomes, and whole renders.

use torus_march::camera::{Camera, DepthValue, Mat3, RenderResult};
use torus_march::fixed::{hypot2, hypot3, isqrt, mul_div, SCALE};
use torus_march::objects::{torus, Torus};
use torus_march::raymarch::{raymarch, Ray, RaymarchOptions, RaymarchResult};
use torus_march::vec3::Vec3;

/// A scene value in raw fixed-point units.
fn fx(v: f64) -> i64 {
    (v * SCALE as f64).round() as i64
}

fn v(x: f64, y: f64, z: f64) -> Vec3 {
    Vec3 { x: fx(x), y: fx(y), z: fx(z) }
}

fn identity() -> Mat3 {
    Mat3 { x_axis: v(1.0, 0.0, 0.0), y_axis: v(0.0, 1.0, 0.0), z_axis: v(0.0, 0.0, 1.0) }
}

/// The reference scene: a torus 10 units down the view axis whose ring lies in
/// the xz-plane, so that the central ray crosses the tube.
fn reference_torus() -> Torus {
    Torus {
        origin: v(0.0, 0.0, 10.0),
        normal: v(0.0, 1.0, 0.0),
        major_radius: fx(3.0),
        minor_radius: fx(1.0),
    }
}

#[test]
fn mul_div_truncates_toward_zero() {
    assert_eq!(mul_div(7, 3, 2), 10);
    assert_eq!(mul_div(-7, 3, 2), -10);
    assert_eq!(mul_div(7, -3, 2), -10);
    assert_eq!(mul_div(-7, -3, 2), 10);
    assert_eq!(mul_div(fx(1.5), fx(2.0), SCALE), fx(3.0));
}

#[test]
fn isqrt_rounds_down() {
    assert_eq!(isqrt(0), 0);
    assert_eq!(isqrt(1), 1);
    assert_eq!(isqrt(2), 1);
    assert_eq!(isqrt(3), 1);
    assert_eq!(isqrt(4), 2);
    assert_eq!(isqrt(99), 9);
    assert_eq!(isqrt(100), 10);
    assert_eq!(isqrt(u64::MAX as u128 * u64::MAX as u128), u64::MAX as u64);
}

#[test]
fn hypot_pythagorean_triples() {
    assert_eq!(hypot2(fx(3.0), fx(4.0)), fx(5.0));
    assert_eq!(hypot2(fx(-3.0), fx(4.0)), fx(5.0));
    assert_eq!(hypot3(fx(1.0), fx(2.0), fx(2.0)), fx(3.0));
    assert_eq!(hypot3(fx(2.0), fx(-3.0), fx(6.0)), fx(7.0));
}

#[test]
fn vec3_operations() {
    let a = v(1.0, 2.0, 3.0);
    let b = v(0.5, -1.0, 2.0);
    let s = a.add(&b);
    assert_eq!((s.x, s.y, s.z), (fx(1.5), fx(1.0), fx(5.0)));
    let d = a.sub(&b);
    assert_eq!((d.x, d.y, d.z), (fx(0.5), fx(3.0), fx(1.0)));
    assert_eq!(a.dot(&v(1.0, 1.0, 1.0)), fx(6.0));
    assert_eq!(v(3.0, 4.0, 0.0).length(), fx(5.0));
}

#[test]
fn normalize_truncates_components() {
    let n = v(3.0, 4.0, 0.0).normalize();
    // 0.6 and 0.8 units, truncated toward zero.
    assert_eq!((n.x, n.y, n.z), (39321, 52428, 0));
    let z = v(0.0, 0.0, 0.0).normalize();
    assert_eq!((z.x, z.y, z.z), (0, 0, 0));
}

#[test]
fn ray_at_advances_along_direction() {
    let ray = Ray { origin: v(1.0, 0.0, 0.0), direction: v(0.0, 0.0, 1.0) };
    let p = ray.at(fx(6.0));
    assert_eq!((p.x, p.y, p.z), (fx(1.0), 0, fx(6.0)));
}

#[test]
fn default_options_match_reference() {
    let o = RaymarchOptions::default();
    assert_eq!(o.max_iterations, 100);
    assert_eq!(o.far_clip, 65_536_000);
    assert_eq!(o.epsilon, 7);
    assert_eq!(o.normal_epsilon, 66);
}

#[test]
fn torus_axis_point_distance() {
    // Axis along z: at (0, 0, 6) the in-plane part vanishes and the distance
    // is hypot(major, 4) - minor = 5 - 1 = 4 units, exactly.
    let d = torus(&v(0.0, 0.0, 6.0), &v(0.0, 0.0, 10.0), &v(0.0, 0.0, 1.0), fx(3.0), fx(1.0));
    assert_eq!(d, fx(4.0));
}

#[test]
fn torus_outer_equator_is_zero() {
    // (major + minor, 0, 0) from the centre, in the ring plane: exactly on the
    // surface.
    let d = torus(&v(4.0, 0.0, 10.0), &v(0.0, 0.0, 10.0), &v(0.0, 0.0, 1.0), fx(3.0), fx(1.0));
    assert_eq!(d, 0);
}

#[test]
fn torus_surface_round_trip() {
    // Points parametrized by the two angles lie on the surface up to
    // fixed-point rounding.
    let major = 3.0;
    let minor = 1.0;
    let origin = v(0.0, 0.0, 10.0);
    let normal = v(0.0, 0.0, 1.0);
    let angles = [(0.3, 1.1), (2.0, 4.5), (5.5, 0.7), (1.0, 3.3), (4.2, 2.6)];
    for (theta, phi) in angles {
        let ring = major + minor * f64::cos(phi);
        let p = v(ring * f64::cos(theta), ring * f64::sin(theta), 10.0 + minor * f64::sin(phi));
        let d = torus(&p, &origin, &normal, fx(major), fx(minor));
        assert!(d.abs() <= 300, "surface point drifted: {d}");
    }
}

#[test]
fn march_hits_immediately_on_surface() {
    // The origin's sample is below epsilon: hit at iteration 0, depth 0.
    let scene = reference_torus();
    let ray = Ray { origin: v(0.0, 0.0, 6.0), direction: v(0.0, 0.0, 1.0) };
    let res = raymarch(ray, &scene, &RaymarchOptions::default());
    match res {
        RaymarchResult::HitScene { iterations, depth, .. } => {
            assert_eq!(iterations, 0);
            assert_eq!(depth, 0);
        }
        _ => panic!("expected an immediate hit"),
    }
}

#[test]
fn march_misses_when_aimed_away() {
    // Marching away from the torus: a confirmed miss, with the nearest
    // distance at most the far clip (and positive).
    let scene = reference_torus();
    let options = RaymarchOptions::default();
    let ray = Ray { origin: v(0.0, 0.0, 0.0), direction: v(0.0, 0.0, -1.0) };
    let res = raymarch(ray, &scene, &options);
    match res {
        RaymarchResult::MissedScene { nearest_distance, .. } => {
            assert!(nearest_distance > 0);
            assert!(nearest_distance <= options.far_clip);
        }
        _ => panic!("expected a miss"),
    }
}

#[test]
fn march_exhausts_a_tiny_budget() {
    // One iteration cannot reach the torus 6 units away, nor the far clip:
    // neither the miss nor the hit condition triggers.
    let scene = reference_torus();
    let options = RaymarchOptions { max_iterations: 1, ..RaymarchOptions::default() };
    let ray = Ray { origin: v(0.0, 0.0, 0.0), direction: v(0.0, 0.0, 1.0) };
    let res = raymarch(ray, &scene, &options);
    match res {
        RaymarchResult::ReachedMaxIterations { nearest_distance } => {
            assert!(nearest_distance > 0);
            assert!(nearest_distance <= options.far_clip);
        }
        _ => panic!("expected an exhausted budget"),
    }
}

#[test]
fn nearest_distance_is_bounded_by_first_sample() {
    // The nearest distance is the minimum over all samples, so at most the
    // sample at the ray's origin.
    let scene = reference_torus();
    let ray = Ray { origin: v(0.0, 0.0, 0.0), direction: v(0.0, 0.0, -1.0) };
    let first = torus(
        &v(0.0, 0.0, 0.0),
        &scene.origin,
        &scene.normal,
        scene.major_radius,
        scene.minor_radius,
    );
    match raymarch(ray, &scene, &RaymarchOptions::default()) {
        RaymarchResult::MissedScene { nearest_distance, .. } => {
            assert!(nearest_distance <= first);
        }
        _ => panic!("expected a miss"),
    }
}

#[test]
fn nearest_distance_is_min_of_samples() {
    // Replay the march by hand with the public field and ray: the reported
    // nearest distance must equal the exact minimum of far_clip and every
    // sample taken up to and including the terminating iteration.
    let scene = reference_torus();
    let options = RaymarchOptions::default();
    let ray = Ray { origin: v(0.0, 0.2, 0.0), direction: v(0.0, 0.1, -1.0).normalize() };
    let mut depth: i64 = 0;
    let mut expected: i64 = options.far_clip;
    let mut samples: usize = 0;
    for _ in 0..options.max_iterations {
        let pos = ray.at(depth);
        let d = torus(&pos, &scene.origin, &scene.normal, scene.major_radius, scene.minor_radius);
        expected = expected.min(d);
        samples += 1;
        if depth > options.far_clip {
            break;
        }
        assert!(d >= options.epsilon, "this ray should never converge");
        depth += d;
    }
    match raymarch(ray, &scene, &options) {
        RaymarchResult::MissedScene { iterations, nearest_distance } => {
            assert_eq!(nearest_distance, expected);
            assert_eq!(iterations + 1, samples);
        }
        _ => panic!("expected a miss"),
    }
}

#[test]
fn render_result_new_is_default_filled() {
    let r = RenderResult::new(5, 3);
    assert_eq!(r.depth.len(), 3);
    assert_eq!(r.proximity.len(), 3);
    assert_eq!(r.normals.len(), 3);
    for row in 0..3 {
        assert_eq!(r.depth[row].len(), 5);
        assert_eq!(r.proximity[row].len(), 5);
        assert_eq!(r.normals[row].len(), 5);
        for col in 0..5 {
            assert_eq!(r.depth[row][col], DepthValue::Finite(0));
            assert_eq!(r.proximity[row][col], 0);
            let n = r.normals[row][col];
            assert_eq!((n.x, n.y, n.z), (0, 0, 0));
        }
    }
}

#[test]
fn render_reference_scene_center_pixel() {
    // 60x30 grid, camera at the origin with the identity basis, torus 10
    // units ahead crossing the view axis: the centre pixel's ray is exactly
    // (0, 0, 1) and hits the tube's near surface at depth about
    // 10 - major - minor = 6 units, its normal facing back at the camera.
    let camera = Camera { origin: v(0.0, 0.0, 0.0), basis: identity(), width: 60, height: 30 };
    let scene = reference_torus();
    let result = camera.render(&scene, &RaymarchOptions::default());
    match result.depth[15][30] {
        DepthValue::Finite(d) => {
            assert!((d - fx(6.0)).abs() <= 655, "centre depth {d} not near 6.0");
        }
        _ => panic!("centre pixel should hit"),
    }
    let n = result.normals[15][30];
    assert!(n.z < -40000, "normal should face the camera: {n:?}");
    assert!(n.x.abs() < 30000 && n.y.abs() < 30000);
    // A hit pixel's proximity keeps its initialized default.
    assert_eq!(result.proximity[15][30], 0);
}

#[test]
fn render_grid_dimensions() {
    let camera = Camera { origin: v(0.0, 0.0, 0.0), basis: identity(), width: 8, height: 4 };
    let result = camera.render(&reference_torus(), &RaymarchOptions::default());
    assert_eq!(result.depth.len(), 4);
    for row in &result.depth {
        assert_eq!(row.len(), 8);
    }
}

#[test]
fn render_depth_grid_mirror_symmetric() {
    // Identity orientation at the origin, scene symmetric across x = 0, and a
    // width dividing SCALE: columns xp and width - xp carry equal depths and
    // proximities.
    let width = 64usize;
    let height = 32usize;
    let camera = Camera { origin: v(0.0, 0.0, 0.0), basis: identity(), width, height };
    let scene = Torus {
        origin: v(0.0, 0.0, 10.0),
        normal: v(0.0, 0.0, 1.0),
        major_radius: fx(3.0),
        minor_radius: fx(1.0),
    };
    let result = camera.render(&scene, &RaymarchOptions::default());
    for y in 0..height {
        for x in 1..width {
            assert_eq!(result.depth[y][x], result.depth[y][width - x], "pixel ({x}, {y})");
            assert_eq!(result.proximity[y][x], result.proximity[y][width - x]);
        }
    }
}

#[test]
fn render_miss_pixels_record_proximity() {
    // A corner ray of a wide grid misses the torus; its depth is unbounded
    // and its proximity is positive.
    let camera = Camera { origin: v(0.0, 0.0, 0.0), basis: identity(), width: 60, height: 30 };
    let result = camera.render(&reference_torus(), &RaymarchOptions::default());
    assert_eq!(result.depth[0][0], DepthValue::Infinite);
    assert!(result.proximity[0][0] > 0);
    let n = result.normals[0][0];
    assert_eq!((n.x, n.y, n.z), (0, 0, 0));
}

#[test]
fn identity_basis_preserves_vectors() {
    let m = identity();
    let d = v(0.25, -0.5, 1.0).normalize();
    let r = m.mul_vec(&d);
    assert_eq!((r.x, r.y, r.z), (d.x, d.y, d.z));
}
