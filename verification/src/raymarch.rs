//! Sphere marching: advance a ray through a signed-distance field until it
//! hits a surface, leaves the far clip, or exhausts its iteration budget.
//!
//! The executable marcher is proved equal to the recursive model
//! [`spec_raymarch`], so every downstream fact follows from that single
//! definition.

use vstd::math::min;
use vstd::prelude::*;

use crate::fixed::{
    lemma_tdiv_le, lemma_tdiv_neg, mul_div, DEPTH_LIMIT, DIR_LIMIT, FIELD_LIMIT, ITER_LIMIT,
    NEAR_LIMIT, PARAM_LIMIT, SCALE, STEP_LIMIT,
};
use crate::vec3::{mirror_x, v_add, v_norm, v_scale, Vec3, Vec3S};

verus! {

/// A half-line: all points `origin + direction * t` for `t >= 0`. The
/// direction is expected (not enforced) to be close to unit length.
#[derive(Clone, Copy, Debug)]
pub struct Ray {
    pub origin: Vec3,
    pub direction: Vec3,
}

/// The mathematical model of a `Ray`.
pub struct RayS {
    pub origin: Vec3S,
    pub direction: Vec3S,
}

impl View for Ray {
    type V = RayS;

    open spec fn view(&self) -> RayS {
        RayS { origin: self.origin@, direction: self.direction@ }
    }
}

impl RayS {
    /// The origin is an ordinary scene position and the direction is of
    /// roughly unit size, so that every reachable point stays representable.
    pub open spec fn valid(self) -> bool {
        &&& self.origin.bounded(PARAM_LIMIT as int)
        &&& self.direction.bounded(DIR_LIMIT as int)
    }
}

/// The point at parameter `t` along the ray, in fixed-point arithmetic.
pub open spec fn ray_point(ray: RayS, t: int) -> Vec3S {
    v_add(ray.origin, v_scale(ray.direction, t))
}

/// A point of a valid ray at parameter `|t| <= tb` is componentwise within
/// `PARAM_LIMIT + 4 * tb`.
pub proof fn lemma_ray_point_bounded(ray: RayS, t: int, tb: int)
    requires
        ray.valid(),
        0 <= tb,
        -tb <= t <= tb,
    ensures
        ray_point(ray, t).bounded(PARAM_LIMIT + 4 * tb),
{
    lemma_dir_step(ray.direction.x, t, tb);
    lemma_dir_step(ray.direction.y, t, tb);
    lemma_dir_step(ray.direction.z, t, tb);
}

/// One component of `direction * t` stays within `4 * tb`: the direction
/// component is at most four units.
proof fn lemma_dir_step(d: int, t: int, tb: int)
    requires
        -(DIR_LIMIT as int) <= d <= DIR_LIMIT as int,
        0 <= tb,
        -tb <= t <= tb,
    ensures
        -(4 * tb) <= tdiv_dir(d, t) <= 4 * tb,
{
    assert(-((4 * tb) * (SCALE as int)) <= d * t <= (4 * tb) * (SCALE as int))
        by (nonlinear_arith)
        requires
            -0x4_0000 <= d <= 0x4_0000,
            0 <= tb,
            -tb <= t <= tb,
    ;
    lemma_tdiv_le(d * t, SCALE as int, 4 * tb);
}

/// Shorthand for a direction component advanced by `t`.
pub open spec fn tdiv_dir(d: int, t: int) -> int {
    crate::fixed::tdiv(d * t, SCALE as int)
}

impl Ray {
    /// The point at parameter `t` along the ray.
    pub fn at(&self, t: i64) -> (r: Vec3)
        requires
            self@.valid(),
            -DEPTH_LIMIT <= t <= DEPTH_LIMIT,
        ensures
            r@ == ray_point(self@, t as int),
            r@.bounded(FIELD_LIMIT as int),
    {
        proof {
            lemma_ray_point_bounded(self@, t as int, DEPTH_LIMIT as int);
        }
        Vec3 {
            x: mul_div(self.direction.x, t, SCALE) + self.origin.x,
            y: mul_div(self.direction.y, t, SCALE) + self.origin.y,
            z: mul_div(self.direction.z, t, SCALE) + self.origin.z,
        }
    }
}

/// Configuration of one marching call, shared read-only across the pixels of a
/// frame.
#[derive(Clone, Copy, Debug)]
pub struct RaymarchOptions {
    /// Iteration budget; must be positive.
    pub max_iterations: usize,
    /// Rays travelling farther than this have missed the scene.
    pub far_clip: i64,
    /// A distance sample strictly below this counts as a surface hit.
    pub epsilon: i64,
    /// Offset used for the forward-difference normal estimate.
    pub normal_epsilon: i64,
}

/// The mathematical model of `RaymarchOptions`.
pub struct OptionsS {
    pub max_iterations: int,
    pub far_clip: int,
    pub epsilon: int,
    pub normal_epsilon: int,
}

impl View for RaymarchOptions {
    type V = OptionsS;

    open spec fn view(&self) -> OptionsS {
        OptionsS {
            max_iterations: self.max_iterations as int,
            far_clip: self.far_clip as int,
            epsilon: self.epsilon as int,
            normal_epsilon: self.normal_epsilon as int,
        }
    }
}

impl OptionsS {
    /// All fields positive and small enough that a march cannot overflow.
    pub open spec fn valid(self) -> bool {
        &&& 0 < self.max_iterations <= ITER_LIMIT as int
        &&& 0 < self.far_clip <= PARAM_LIMIT as int
        &&& 0 < self.epsilon <= PARAM_LIMIT as int
        &&& 0 < self.normal_epsilon <= PARAM_LIMIT as int
    }
}

impl Default for RaymarchOptions {
    /// The reference configuration: 100 iterations, a far clip of 1000 units,
    /// a hit threshold of about `1e-4` units and a normal offset of about
    /// `1e-3` units — the nearest representable fixed-point values.
    fn default() -> (r: RaymarchOptions)
        ensures
            r.max_iterations == 100,
            r.far_clip == 65_536_000,
            r.epsilon == 7,
            r.normal_epsilon == 66,
            r@.valid(),
    {
        RaymarchOptions { max_iterations: 100, far_clip: 65_536_000, epsilon: 7, normal_epsilon: 66 }
    }
}

/// A scene: a total function from points to the (approximate) signed distance
/// to the nearest surface. The camera treats it as an opaque evaluator.
pub trait DistanceField {
    /// The field's parameters lie in the ranges its bounds below assume.
    spec fn wf(&self) -> bool;

    /// The value the executable sampler returns at `p`.
    spec fn spec_distance(&self, p: Vec3S) -> int;

    /// Sample the field. A well-formed field never reports a distance below
    /// `-PARAM_LIMIT`, and at points near the ray (within `NEAR_LIMIT`) never
    /// more than `STEP_LIMIT`, so a march can neither underflow nor overflow
    /// its accumulated depth.
    fn distance(&self, p: &Vec3) -> (r: i64)
        requires
            self.wf(),
            p@.bounded(FIELD_LIMIT as int),
        ensures
            r as int == self.spec_distance(p@),
            -PARAM_LIMIT <= r as int,
            p@.bounded(NEAR_LIMIT as int) ==> r as int <= STEP_LIMIT,
    ;
}

/// Outcome of marching a single ray.
#[derive(Clone, Copy, Debug, PartialEq, Eq, Structural)]
pub enum RaymarchResult {
    /// The ray travelled past `far_clip` without converging. `iterations` is
    /// the 0-based index of the terminating iteration; `nearest_distance` the
    /// smallest sample seen (at most the initial `far_clip`).
    MissedScene { iterations: usize, nearest_distance: i64 },
    /// The budget ran out with neither a hit nor a miss; the iteration count
    /// always equals `max_iterations` and is therefore not repeated here.
    ReachedMaxIterations { nearest_distance: i64 },
    /// A sample fell below `epsilon` at distance `depth` along the ray;
    /// `normal` is a first-order forward-difference gradient estimate.
    HitScene { iterations: usize, depth: i64, normal: Vec3 },
}

/// The mathematical model of a `RaymarchResult`.
pub enum MarchStatus {
    MissedScene { iterations: int, nearest_distance: int },
    ReachedMaxIterations { nearest_distance: int },
    HitScene { iterations: int, depth: int, normal: Vec3S },
}

impl View for RaymarchResult {
    type V = MarchStatus;

    open spec fn view(&self) -> MarchStatus {
        match *self {
            RaymarchResult::MissedScene { iterations, nearest_distance } =>
                MarchStatus::MissedScene {
                    iterations: iterations as int,
                    nearest_distance: nearest_distance as int,
                },
            RaymarchResult::ReachedMaxIterations { nearest_distance } =>
                MarchStatus::ReachedMaxIterations {
                    nearest_distance: nearest_distance as int,
                },
            RaymarchResult::HitScene { iterations, depth, normal } => MarchStatus::HitScene {
                iterations: iterations as int,
                depth: depth as int,
                normal: normal@,
            },
        }
    }
}

/// The normal estimate at a hit point `p`: the field sampled at `p` offset by
/// `ne` along each axis independently, assembled as a vector and normalized.
pub open spec fn hit_normal<S: DistanceField>(scene: &S, p: Vec3S, ne: int) -> Vec3S {
    v_norm(
        Vec3S {
            x: scene.spec_distance(Vec3S { x: p.x + ne, y: p.y, z: p.z }),
            y: scene.spec_distance(Vec3S { x: p.x, y: p.y + ne, z: p.z }),
            z: scene.spec_distance(Vec3S { x: p.x, y: p.y, z: p.z + ne }),
        },
    )
}

/// One step of the march, continued recursively: the state is the iteration
/// index, the accumulated depth, and the smallest sample seen so far
/// (initially `far_clip`). The checks run in this order every iteration:
/// first the miss check on the current depth, then the hit check, then the
/// sphere-tracing step.
pub open spec fn march_from<S: DistanceField>(
    scene: &S,
    ray: RayS,
    o: OptionsS,
    i: int,
    depth: int,
    nearest: int,
) -> MarchStatus
    decreases o.max_iterations - i,
{
    if i >= o.max_iterations {
        MarchStatus::ReachedMaxIterations { nearest_distance: nearest }
    } else {
        let d = scene.spec_distance(ray_point(ray, depth));
        let n2 = min(nearest, d);
        if depth > o.far_clip {
            MarchStatus::MissedScene { iterations: i, nearest_distance: n2 }
        } else if d < o.epsilon {
            MarchStatus::HitScene {
                iterations: i,
                depth,
                normal: hit_normal(scene, ray_point(ray, depth), o.normal_epsilon),
            }
        } else {
            march_from(scene, ray, o, i + 1, depth + d, n2)
        }
    }
}

/// What `raymarch` returns: the march started at depth 0 with `far_clip` as
/// the initial nearest sample.
pub open spec fn spec_raymarch<S: DistanceField>(scene: &S, ray: RayS, o: OptionsS) -> MarchStatus {
    march_from(scene, ray, o, 0, 0, o.far_clip)
}

/// March `ray` through `scene`: repeatedly sample the field at the current
/// point, keep the smallest sample, and either report a miss (depth beyond
/// `far_clip`), a hit (sample below `epsilon`, with a normal estimate), or
/// step forward by the sampled distance; an exhausted budget reports the
/// nearest sample seen. Equal to the model `spec_raymarch` on all inputs.
pub fn raymarch<S: DistanceField>(ray: Ray, scene: &S, options: &RaymarchOptions) -> (result:
    RaymarchResult)
    requires
        scene.wf(),
        ray@.valid(),
        options@.valid(),
    ensures
        result@ == spec_raymarch(scene, ray@, options@),
{
    let mut depth: i64 = 0;
    let mut nearest_distance: i64 = options.far_clip;
    let mut i: usize = 0;
    while i < options.max_iterations
        invariant
            scene.wf(),
            ray@.valid(),
            options@.valid(),
            i <= options.max_iterations,
            -((i as int) * (PARAM_LIMIT as int)) <= depth as int,
            depth as int <= options@.far_clip + STEP_LIMIT as int,
            -PARAM_LIMIT <= nearest_distance as int <= options@.far_clip,
            march_from(scene, ray@, options@, i as int, depth as int, nearest_distance as int)
                == spec_raymarch(scene, ray@, options@),
        decreases options.max_iterations - i,
    {
        proof {
            assert((i as int) * (PARAM_LIMIT as int) <= (ITER_LIMIT as int) * (
            PARAM_LIMIT as int)) by (nonlinear_arith)
                requires
                    0 <= i <= ITER_LIMIT,
            ;
        }
        let scene_pos = ray.at(depth);
        let scene_distance = scene.distance(&scene_pos);
        if scene_distance < nearest_distance {
            nearest_distance = scene_distance;
        }
        if depth > options.far_clip {
            return RaymarchResult::MissedScene { iterations: i, nearest_distance };
        } else if scene_distance < options.epsilon {
            proof {
                lemma_ray_point_bounded(ray@, depth as int, 0x1000_0000_0000);
            }
            let ox = Vec3 {
                x: scene_pos.x + options.normal_epsilon,
                y: scene_pos.y,
                z: scene_pos.z,
            };
            let oy = Vec3 {
                x: scene_pos.x,
                y: scene_pos.y + options.normal_epsilon,
                z: scene_pos.z,
            };
            let oz = Vec3 {
                x: scene_pos.x,
                y: scene_pos.y,
                z: scene_pos.z + options.normal_epsilon,
            };
            let sx = scene.distance(&ox);
            let sy = scene.distance(&oy);
            let sz = scene.distance(&oz);
            let normal = Vec3 { x: sx, y: sy, z: sz }.normalize();
            return RaymarchResult::HitScene { iterations: i, depth, normal };
        } else {
            proof {
                lemma_ray_point_bounded(ray@, depth as int, 0x1000_0000_0000);
            }
            depth = depth + scene_distance;
            i = i + 1;
        }
    }
    RaymarchResult::ReachedMaxIterations { nearest_distance }
}

/// The depth the march has accumulated entering iteration `k`, were it to run
/// unconditionally: each iteration advances by the previous iteration's
/// sample.
pub open spec fn march_depth<S: DistanceField>(scene: &S, ray: RayS, k: nat) -> int
    decreases k, 0int,
{
    if k == 0 {
        0
    } else {
        march_depth(scene, ray, (k - 1) as nat) + march_sample(scene, ray, (k - 1) as nat)
    }
}

/// The scene-distance sample of iteration `k`.
pub open spec fn march_sample<S: DistanceField>(scene: &S, ray: RayS, k: nat) -> int
    decreases k, 1int,
{
    scene.spec_distance(ray_point(ray, march_depth(scene, ray, k)))
}

/// The minimum of the samples of iterations `0 .. k` (meaningful for
/// `k >= 1`).
pub open spec fn min_sample<S: DistanceField>(scene: &S, ray: RayS, k: nat) -> int
    decreases k,
{
    if k <= 1 {
        march_sample(scene, ray, 0)
    } else {
        min(min_sample(scene, ray, (k - 1) as nat), march_sample(scene, ray, (k - 1) as nat))
    }
}

/// A ray that already starts on a surface — its origin's sample is below
/// `epsilon` — hits immediately: iteration index 0, depth 0, and the normal
/// estimated at the origin.
pub proof fn lemma_hit_at_origin<S: DistanceField>(scene: &S, ray: RayS, o: OptionsS)
    requires
        o.valid(),
        scene.spec_distance(ray_point(ray, 0)) < o.epsilon,
    ensures
        spec_raymarch(scene, ray, o) matches MarchStatus::HitScene { iterations, depth, normal }
            && iterations == 0 && depth == 0 && normal == hit_normal(
            scene,
            ray_point(ray, 0),
            o.normal_epsilon,
        ),
{
}

proof fn lemma_march_misses_from<S: DistanceField>(
    scene: &S,
    ray: RayS,
    o: OptionsS,
    c: int,
    i: int,
    depth: int,
    nearest: int,
)
    requires
        o.valid(),
        o.epsilon <= c,
        forall|t: int| 0 <= t ==> scene.spec_distance(ray_point(ray, t)) >= c,
        o.max_iterations * c > o.far_clip + c,
        0 <= i < o.max_iterations,
        0 <= depth,
        i * c <= depth,
        nearest <= o.far_clip,
    ensures
        march_from(scene, ray, o, i, depth, nearest) matches MarchStatus::MissedScene {
            iterations,
            nearest_distance,
        } && i <= iterations && nearest_distance <= o.far_clip,
    decreases o.max_iterations - i,
{
    let d = scene.spec_distance(ray_point(ray, depth));
    assert(d >= c);
    if depth > o.far_clip {
    } else {
        assert((i + 1) * c == i * c + c) by (nonlinear_arith);
        assert(i + 1 < o.max_iterations) by (nonlinear_arith)
            requires
                (i + 1) * c <= o.far_clip + c,
                o.max_iterations * c > o.far_clip + c,
                c > 0,
        ;
        lemma_march_misses_from(scene, ray, o, c, i + 1, depth + d, min(nearest, d));
    }
}

/// A ray aimed away from every surface — its samples along the ray stay at or
/// above a constant `c >= epsilon` — misses: once the accumulated depth
/// passes `far_clip` the march reports `MissedScene`, with a nearest distance
/// of at most `far_clip`. The iteration budget must allow the crossing:
/// `max_iterations * c > far_clip + c`.
pub proof fn lemma_misses_when_aimed_away<S: DistanceField>(
    scene: &S,
    ray: RayS,
    o: OptionsS,
    c: int,
)
    requires
        o.valid(),
        o.epsilon <= c,
        forall|t: int| 0 <= t ==> scene.spec_distance(ray_point(ray, t)) >= c,
        o.max_iterations * c > o.far_clip + c,
    ensures
        spec_raymarch(scene, ray, o) matches MarchStatus::MissedScene { nearest_distance, .. }
            && nearest_distance <= o.far_clip,
{
    lemma_march_misses_from(scene, ray, o, c, 0, 0, o.far_clip);
}

proof fn lemma_march_nearest_from<S: DistanceField>(
    scene: &S,
    ray: RayS,
    o: OptionsS,
    i: nat,
    nearest: int,
)
    requires
        o.valid(),
        i <= o.max_iterations,
        nearest == if i == 0 {
            o.far_clip
        } else {
            min(o.far_clip, min_sample(scene, ray, i))
        },
    ensures
        match march_from(scene, ray, o, i as int, march_depth(scene, ray, i), nearest) {
            MarchStatus::MissedScene { iterations, nearest_distance } => i <= iterations
                && nearest_distance == min(
                o.far_clip,
                min_sample(scene, ray, (iterations + 1) as nat),
            ),
            MarchStatus::ReachedMaxIterations { nearest_distance } => nearest_distance == min(
                o.far_clip,
                min_sample(scene, ray, o.max_iterations as nat),
            ),
            MarchStatus::HitScene { .. } => true,
        },
    decreases o.max_iterations - i,
{
    if i as int >= o.max_iterations {
    } else {
        let depth = march_depth(scene, ray, i);
        let d = march_sample(scene, ray, i);
        let n2 = min(nearest, d);
        if i == 0 {
            assert(min_sample(scene, ray, 1) == march_sample(scene, ray, 0));
        } else {
            assert(min_sample(scene, ray, (i + 1) as nat) == min(
                min_sample(scene, ray, i),
                march_sample(scene, ray, i),
            ));
        }
        assert(n2 == min(o.far_clip, min_sample(scene, ray, (i + 1) as nat)));
        if depth > o.far_clip {
        } else if d < o.epsilon {
        } else {
            assert(march_depth(scene, ray, (i + 1) as nat) == depth + d);
            lemma_march_nearest_from(scene, ray, o, (i + 1) as nat, n2);
        }
    }
}

/// The nearest distance a march reports is the minimum of `far_clip` and all
/// scene-distance samples taken in the iterations actually performed:
/// samples `0 ..= iterations` for a miss, all `max_iterations` samples for an
/// exhausted budget.
pub proof fn lemma_nearest_is_min_sample<S: DistanceField>(scene: &S, ray: RayS, o: OptionsS)
    requires
        o.valid(),
    ensures
        match spec_raymarch(scene, ray, o) {
            MarchStatus::MissedScene { iterations, nearest_distance } => 0 <= iterations
                && nearest_distance == min(
                o.far_clip,
                min_sample(scene, ray, (iterations + 1) as nat),
            ),
            MarchStatus::ReachedMaxIterations { nearest_distance } => nearest_distance == min(
                o.far_clip,
                min_sample(scene, ray, o.max_iterations as nat),
            ),
            MarchStatus::HitScene { .. } => true,
        },
{
    lemma_march_nearest_from(scene, ray, o, 0, o.far_clip);
}

proof fn lemma_hit_from<S: DistanceField>(
    scene: &S,
    ray: RayS,
    o: OptionsS,
    i: nat,
    nearest: int,
)
    requires
        o.valid(),
        i <= o.max_iterations,
    ensures
        match march_from(scene, ray, o, i as int, march_depth(scene, ray, i), nearest) {
            MarchStatus::HitScene { iterations, depth, normal } => i <= iterations
                < o.max_iterations && depth == march_depth(scene, ray, iterations as nat) && depth
                <= o.far_clip && march_sample(scene, ray, iterations as nat) < o.epsilon && normal
                == hit_normal(scene, ray_point(ray, depth), o.normal_epsilon),
            _ => true,
        },
    decreases o.max_iterations - i,
{
    if i as int >= o.max_iterations {
    } else {
        let depth = march_depth(scene, ray, i);
        let d = march_sample(scene, ray, i);
        if depth > o.far_clip {
        } else if d < o.epsilon {
        } else {
            assert(march_depth(scene, ray, (i + 1) as nat) == depth + d);
            lemma_hit_from(scene, ray, o, (i + 1) as nat, min(nearest, d));
        }
    }
}

/// A hit is a converged march: the reported depth is the sum of the steps of
/// the iterations before it, it lies within the far clip, the sample there is
/// below `epsilon`, and the normal is the forward-difference estimate at the
/// hit point.
pub proof fn lemma_hit_is_converged<S: DistanceField>(scene: &S, ray: RayS, o: OptionsS)
    requires
        o.valid(),
    ensures
        match spec_raymarch(scene, ray, o) {
            MarchStatus::HitScene { iterations, depth, normal } => 0 <= iterations
                < o.max_iterations && depth == march_depth(scene, ray, iterations as nat) && depth
                <= o.far_clip && march_sample(scene, ray, iterations as nat) < o.epsilon && normal
                == hit_normal(scene, ray_point(ray, depth), o.normal_epsilon),
            _ => true,
        },
{
    lemma_hit_from(scene, ray, o, 0, o.far_clip);
}

proof fn lemma_exhausted_iff_from<S: DistanceField>(
    scene: &S,
    ray: RayS,
    o: OptionsS,
    i: nat,
    nearest: int,
)
    requires
        o.valid(),
        i <= o.max_iterations,
    ensures
        (march_from(scene, ray, o, i as int, march_depth(scene, ray, i), nearest)
            is ReachedMaxIterations) <==> (forall|j: nat|
            i <= j < o.max_iterations ==> march_depth(scene, ray, j) <= o.far_clip
                && march_sample(scene, ray, j) >= o.epsilon),
    decreases o.max_iterations - i,
{
    if i as int >= o.max_iterations {
    } else {
        let depth = march_depth(scene, ray, i);
        let d = march_sample(scene, ray, i);
        if depth > o.far_clip {
            assert(!(march_depth(scene, ray, i) <= o.far_clip));
        } else if d < o.epsilon {
            assert(!(march_sample(scene, ray, i) >= o.epsilon));
        } else {
            let n2 = min(nearest, d);
            assert(march_depth(scene, ray, (i + 1) as nat) == depth + d);
            lemma_exhausted_iff_from(scene, ray, o, (i + 1) as nat, n2);
            if march_from(scene, ray, o, i as int + 1, depth + d, n2) is ReachedMaxIterations {
                assert forall|j: nat|
                    i <= j < o.max_iterations implies march_depth(scene, ray, j) <= o.far_clip
                        && march_sample(scene, ray, j) >= o.epsilon by {
                    if j > i {
                        assert(i + 1 <= j < o.max_iterations);
                    }
                };
            } else {
                if forall|j: nat|
                    i <= j < o.max_iterations ==> march_depth(scene, ray, j) <= o.far_clip
                        && march_sample(scene, ray, j) >= o.epsilon {
                    assert forall|j: nat|
                        i + 1 <= j < o.max_iterations implies march_depth(scene, ray, j)
                            <= o.far_clip && march_sample(scene, ray, j) >= o.epsilon by {
                        assert(i <= j < o.max_iterations);
                    };
                    assert(false);
                }
            }
        }
    }
}

/// The ray reflected across the plane `x = 0`.
pub open spec fn mirror_ray(r: RayS) -> RayS {
    RayS { origin: mirror_x(r.origin), direction: mirror_x(r.direction) }
}

/// Two march outcomes agree on everything but the normal estimate (forward
/// differencing is not reflection-invariant, so mirrored hits may estimate
/// slightly different normals).
pub open spec fn same_silhouette(a: MarchStatus, b: MarchStatus) -> bool {
    match (a, b) {
        (
            MarchStatus::MissedScene { iterations: i1, nearest_distance: n1 },
            MarchStatus::MissedScene { iterations: i2, nearest_distance: n2 },
        ) => i1 == i2 && n1 == n2,
        (
            MarchStatus::ReachedMaxIterations { nearest_distance: n1 },
            MarchStatus::ReachedMaxIterations { nearest_distance: n2 },
        ) => n1 == n2,
        (
            MarchStatus::HitScene { iterations: i1, depth: d1, .. },
            MarchStatus::HitScene { iterations: i2, depth: d2, .. },
        ) => i1 == i2 && d1 == d2,
        _ => false,
    }
}

/// A mirrored ray visits the mirrored points: the point at `t` of the
/// mirrored ray is the reflection of the point at `t` of the unmirrored one.
pub proof fn lemma_ray_point_mirror(ray: RayS, t: int)
    ensures
        ray_point(mirror_ray(ray), t) == mirror_x(ray_point(ray, t)),
{
    assert((-ray.direction.x) * t == -(ray.direction.x * t)) by (nonlinear_arith);
    lemma_tdiv_neg(ray.direction.x * t, SCALE as int);
}

/// Marching a mirrored ray through a field symmetric across `x = 0` gives the
/// same outcome, iteration count, depth, and nearest distance as the
/// unmirrored ray (the silhouette; the normal estimate may differ).
pub proof fn lemma_march_mirror<S: DistanceField>(
    scene: &S,
    ray: RayS,
    o: OptionsS,
    i: int,
    depth: int,
    nearest: int,
)
    requires
        o.valid(),
        forall|p: Vec3S| scene.spec_distance(mirror_x(p)) == scene.spec_distance(p),
    ensures
        same_silhouette(
            march_from(scene, ray, o, i, depth, nearest),
            march_from(scene, mirror_ray(ray), o, i, depth, nearest),
        ),
    decreases o.max_iterations - i,
{
    if i >= o.max_iterations {
    } else {
        lemma_ray_point_mirror(ray, depth);
        let d = scene.spec_distance(ray_point(ray, depth));
        assert(scene.spec_distance(ray_point(mirror_ray(ray), depth)) == d);
        if depth > o.far_clip {
        } else if d < o.epsilon {
        } else {
            lemma_march_mirror(scene, ray, o, i + 1, depth + d, min(nearest, d));
        }
    }
}

/// `ReachedMaxIterations` occurs exactly when neither the miss nor the hit
/// condition triggers within the budget: every iteration's depth stays within
/// `far_clip` and every sample stays at or above `epsilon`.
pub proof fn lemma_exhausted_iff_no_trigger<S: DistanceField>(scene: &S, ray: RayS, o: OptionsS)
    requires
        o.valid(),
    ensures
        (spec_raymarch(scene, ray, o) is ReachedMaxIterations) <==> (forall|j: nat|
            j < o.max_iterations ==> march_depth(scene, ray, j) <= o.far_clip && march_sample(
                scene,
                ray,
                j,
            ) >= o.epsilon),
{
    lemma_exhausted_iff_from(scene, ray, o, 0, o.far_clip);
}

} // verus!
