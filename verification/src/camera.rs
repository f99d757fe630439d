//! Pinhole camera: one ray per pixel of a fixed grid, each marched through
//! the scene and reduced to per-pixel depth, proximity, and normal values.

use vstd::prelude::*;

use crate::fixed::{mul_div, PARAM_LIMIT, SCALE};
use crate::raymarch::{
    raymarch, DistanceField, MarchStatus, OptionsS, Ray, RayS, RaymarchOptions, RaymarchResult,
    spec_raymarch,
};
use crate::vec3::{lemma_v_dot_unit, v_dot, v_norm, v_zero, Vec3, Vec3S};

verus! {

/// Cap on the pixel grid's width and height.
pub const GRID_LIMIT: usize = 4096;

/// A 3x3 orientation matrix, stored as its three columns.
#[derive(Clone, Copy, Debug)]
pub struct Mat3 {
    pub x_axis: Vec3,
    pub y_axis: Vec3,
    pub z_axis: Vec3,
}

/// The mathematical model of a `Mat3`.
pub struct Mat3S {
    pub x_axis: Vec3S,
    pub y_axis: Vec3S,
    pub z_axis: Vec3S,
}

impl View for Mat3 {
    type V = Mat3S;

    open spec fn view(&self) -> Mat3S {
        Mat3S { x_axis: self.x_axis@, y_axis: self.y_axis@, z_axis: self.z_axis@ }
    }
}

impl Mat3S {
    /// Every entry is at most one unit: what a rotation matrix satisfies.
    pub open spec fn bounded_cols(self) -> bool {
        &&& self.x_axis.bounded(SCALE as int)
        &&& self.y_axis.bounded(SCALE as int)
        &&& self.z_axis.bounded(SCALE as int)
    }
}

/// Matrix-vector product: the linear combination of the columns by the
/// vector's components.
pub open spec fn mat_mul(m: Mat3S, v: Vec3S) -> Vec3S {
    Vec3S {
        x: v_dot(Vec3S { x: m.x_axis.x, y: m.y_axis.x, z: m.z_axis.x }, v),
        y: v_dot(Vec3S { x: m.x_axis.y, y: m.y_axis.y, z: m.z_axis.y }, v),
        z: v_dot(Vec3S { x: m.x_axis.z, y: m.y_axis.z, z: m.z_axis.z }, v),
    }
}

impl Mat3 {
    /// Matrix-vector product, one fixed-point dot product per row.
    pub fn mul_vec(&self, v: &Vec3) -> (r: Vec3)
        requires
            self@.bounded_cols(),
            v@.bounded(SCALE as int),
        ensures
            r@ == mat_mul(self@, v@),
            r@.bounded(3 * SCALE as int),
    {
        let r1 = Vec3 { x: self.x_axis.x, y: self.y_axis.x, z: self.z_axis.x };
        let r2 = Vec3 { x: self.x_axis.y, y: self.y_axis.y, z: self.z_axis.y };
        let r3 = Vec3 { x: self.x_axis.z, y: self.y_axis.z, z: self.z_axis.z };
        proof {
            lemma_v_dot_unit(r1@, v@, SCALE as int);
            lemma_v_dot_unit(r2@, v@, SCALE as int);
            lemma_v_dot_unit(r3@, v@, SCALE as int);
        }
        Vec3 { x: r1.dot(v), y: r2.dot(v), z: r3.dot(v) }
    }
}

/// A pinhole camera with a fixed pixel grid bound to it.
#[derive(Clone, Copy, Debug)]
pub struct Camera {
    pub origin: Vec3,
    pub basis: Mat3,
    pub width: usize,
    pub height: usize,
}

/// The mathematical model of a `Camera`.
pub struct CameraS {
    pub origin: Vec3S,
    pub basis: Mat3S,
    pub width: int,
    pub height: int,
}

impl View for Camera {
    type V = CameraS;

    open spec fn view(&self) -> CameraS {
        CameraS {
            origin: self.origin@,
            basis: self.basis@,
            width: self.width as int,
            height: self.height as int,
        }
    }
}

impl CameraS {
    /// The pose is an ordinary scene position with a rotation-like basis, and
    /// the grid is nonempty and within `GRID_LIMIT`.
    pub open spec fn wf(self) -> bool {
        &&& self.origin.bounded(PARAM_LIMIT as int)
        &&& self.basis.bounded_cols()
        &&& 0 < self.width <= GRID_LIMIT as int
        &&& 0 < self.height <= GRID_LIMIT as int
    }
}

/// The ray of pixel `(xp, yp)`: normalized device coordinates
/// `(xp / width - 1/2, yp / height - 1/2, 1)`, normalized, then rotated by
/// the camera's basis; cast from the camera's origin.
pub open spec fn pixel_dir(cam: CameraS, xp: int, yp: int) -> Vec3S {
    mat_mul(
        cam.basis,
        v_norm(
            Vec3S {
                x: crate::fixed::tdiv(xp * SCALE, cam.width) - SCALE / 2,
                y: crate::fixed::tdiv(yp * SCALE, cam.height) - SCALE / 2,
                z: SCALE as int,
            },
        ),
    )
}

/// The ray cast for pixel `(xp, yp)`.
pub open spec fn pixel_ray(cam: CameraS, xp: int, yp: int) -> RayS {
    RayS { origin: cam.origin, direction: pixel_dir(cam, xp, yp) }
}

/// The march outcome of pixel `(xp, yp)`.
pub open spec fn pixel_march<S: DistanceField>(
    scene: &S,
    cam: CameraS,
    o: OptionsS,
    xp: int,
    yp: int,
) -> MarchStatus {
    spec_raymarch(scene, pixel_ray(cam, xp, yp), o)
}

/// A per-pixel depth. A confirmed miss is unbounded, an exhausted iteration
/// budget is deliberately *undetermined* — distinguishable from both a hit
/// and a miss, the one soft error signal of the renderer. (A floating-point
/// consumer renders `Finite` as the value, `Infinite` as `+inf` and
/// `Undetermined` as `NaN`, preserving the convention that only finite depths
/// are renderable.)
#[derive(Clone, Copy, Debug, PartialEq, Eq, Structural)]
pub enum DepthValue {
    Finite(i64),
    Infinite,
    Undetermined,
}

/// The mathematical model of a `DepthValue`.
pub enum DepthS {
    Finite(int),
    Infinite,
    Undetermined,
}

impl View for DepthValue {
    type V = DepthS;

    open spec fn view(&self) -> DepthS {
        match *self {
            DepthValue::Finite(v) => DepthS::Finite(v as int),
            DepthValue::Infinite => DepthS::Infinite,
            DepthValue::Undetermined => DepthS::Undetermined,
        }
    }
}

/// The depth a march outcome writes to its pixel.
pub open spec fn spec_pixel_depth(m: MarchStatus) -> DepthS {
    match m {
        MarchStatus::MissedScene { .. } => DepthS::Infinite,
        MarchStatus::ReachedMaxIterations { .. } => DepthS::Undetermined,
        MarchStatus::HitScene { depth, .. } => DepthS::Finite(depth),
    }
}

/// The proximity a march outcome writes to its pixel: the nearest sample for
/// non-hits, the initial 0 for hits (proximity is only meaningful for
/// non-hits).
pub open spec fn spec_pixel_proximity(m: MarchStatus) -> int {
    match m {
        MarchStatus::MissedScene { nearest_distance, .. } => nearest_distance,
        MarchStatus::ReachedMaxIterations { nearest_distance } => nearest_distance,
        MarchStatus::HitScene { .. } => 0,
    }
}

/// The normal a march outcome writes to its pixel: the estimate for hits, the
/// default zero vector otherwise.
pub open spec fn spec_pixel_normal(m: MarchStatus) -> Vec3S {
    match m {
        MarchStatus::HitScene { normal, .. } => normal,
        _ => v_zero(),
    }
}

/// Three dense grids, one entry per pixel, indexed `[row][column]`.
#[derive(Debug)]
pub struct RenderResult {
    pub depth: Vec<Vec<DepthValue>>,
    pub proximity: Vec<Vec<i64>>,
    pub normals: Vec<Vec<Vec3>>,
}

impl RenderResult {
    /// All three grids have `h` rows of `w` entries.
    pub open spec fn wf(self, w: int, h: int) -> bool {
        &&& self.depth@.len() == h
        &&& self.proximity@.len() == h
        &&& self.normals@.len() == h
        &&& forall|r: int| 0 <= r < h ==> (#[trigger] self.depth@[r])@.len() == w
        &&& forall|r: int| 0 <= r < h ==> (#[trigger] self.proximity@[r])@.len() == w
        &&& forall|r: int| 0 <= r < h ==> (#[trigger] self.normals@[r])@.len() == w
    }

    /// Fresh grids of the default per-pixel values: depth 0, proximity 0, and
    /// the zero normal.
    pub fn new(width: usize, height: usize) -> (r: RenderResult)
        ensures
            r.wf(width as int, height as int),
            forall|row: int, c: int| 0 <= row < height && 0 <= c < width ==> (#[trigger] r.depth@[row]@[c])
                == DepthValue::Finite(0),
            forall|row: int, c: int| 0 <= row < height && 0 <= c < width ==> (#[trigger] r.proximity@[row]@[c])
                == 0,
            forall|row: int, c: int| 0 <= row < height && 0 <= c < width ==> (#[trigger] r.normals@[row]@[c])@
                == v_zero(),
    {
        let mut depth: Vec<Vec<DepthValue>> = Vec::new();
        let mut proximity: Vec<Vec<i64>> = Vec::new();
        let mut normals: Vec<Vec<Vec3>> = Vec::new();
        let mut row: usize = 0;
        while row < height
            invariant
                row <= height,
                depth@.len() == row,
                proximity@.len() == row,
                normals@.len() == row,
                forall|r: int| 0 <= r < row ==> (#[trigger] depth@[r])@.len() == width,
                forall|r: int| 0 <= r < row ==> (#[trigger] proximity@[r])@.len() == width,
                forall|r: int| 0 <= r < row ==> (#[trigger] normals@[r])@.len() == width,
                forall|r: int, c: int| 0 <= r < row && 0 <= c < width ==> (#[trigger] depth@[r]@[c])
                    == DepthValue::Finite(0),
                forall|r: int, c: int| 0 <= r < row && 0 <= c < width ==> (#[trigger] proximity@[r]@[c])
                    == 0,
                forall|r: int, c: int| 0 <= r < row && 0 <= c < width ==> (#[trigger] normals@[r]@[c])@
                    == v_zero(),
            decreases height - row,
        {
            let mut drow: Vec<DepthValue> = Vec::new();
            let mut prow: Vec<i64> = Vec::new();
            let mut nrow: Vec<Vec3> = Vec::new();
            let mut c: usize = 0;
            while c < width
                invariant
                    c <= width,
                    drow@.len() == c,
                    prow@.len() == c,
                    nrow@.len() == c,
                    forall|k: int| 0 <= k < c ==> (#[trigger] drow@[k]) == DepthValue::Finite(0),
                    forall|k: int| 0 <= k < c ==> (#[trigger] prow@[k]) == 0,
                    forall|k: int| 0 <= k < c ==> (#[trigger] nrow@[k])@ == v_zero(),
                decreases width - c,
            {
                drow.push(DepthValue::Finite(0));
                prow.push(0);
                nrow.push(Vec3 { x: 0, y: 0, z: 0 });
                c = c + 1;
            }
            depth.push(drow);
            proximity.push(prow);
            normals.push(nrow);
            row = row + 1;
        }
        RenderResult { depth, proximity, normals }
    }
}

impl Camera {
    /// Render the scene: march one ray per pixel and reduce each outcome into
    /// the three grids. A miss leaves an unbounded depth and records how close
    /// the ray came; an exhausted budget leaves the depth undetermined; a hit
    /// records its depth and normal estimate. Pixels are independent: each
    /// entry equals the reduction of its own pixel's march.
    pub fn render<S: DistanceField>(&self, scene: &S, raymarch_options: &RaymarchOptions) -> (r:
        RenderResult)
        requires
            scene.wf(),
            self@.wf(),
            raymarch_options@.valid(),
        ensures
            r.wf(self.width as int, self.height as int),
            forall|yp: int, xp: int|
                0 <= yp < self.height && 0 <= xp < self.width ==> (#[trigger] r.depth@[yp]@[xp])@
                    == spec_pixel_depth(pixel_march(scene, self@, raymarch_options@, xp, yp)),
            forall|yp: int, xp: int|
                0 <= yp < self.height && 0 <= xp < self.width ==> (#[trigger] r.proximity@[yp]@[xp])
                    as int == spec_pixel_proximity(
                    pixel_march(scene, self@, raymarch_options@, xp, yp),
                ),
            forall|yp: int, xp: int|
                0 <= yp < self.height && 0 <= xp < self.width ==> (#[trigger] r.normals@[yp]@[xp])@
                    == spec_pixel_normal(pixel_march(scene, self@, raymarch_options@, xp, yp)),
    {
        let width = self.width;
        let height = self.height;
        let mut depth: Vec<Vec<DepthValue>> = Vec::new();
        let mut proximity: Vec<Vec<i64>> = Vec::new();
        let mut normals: Vec<Vec<Vec3>> = Vec::new();
        let mut yp: usize = 0;
        while yp < height
            invariant
                scene.wf(),
                self@.wf(),
                raymarch_options@.valid(),
                width == self.width,
                height == self.height,
                yp <= height,
                depth@.len() == yp,
                proximity@.len() == yp,
                normals@.len() == yp,
                forall|r: int| 0 <= r < yp ==> (#[trigger] depth@[r])@.len() == width,
                forall|r: int| 0 <= r < yp ==> (#[trigger] proximity@[r])@.len() == width,
                forall|r: int| 0 <= r < yp ==> (#[trigger] normals@[r])@.len() == width,
                forall|r: int, c: int|
                    0 <= r < yp && 0 <= c < width ==> (#[trigger] depth@[r]@[c])@
                        == spec_pixel_depth(pixel_march(scene, self@, raymarch_options@, c, r)),
                forall|r: int, c: int|
                    0 <= r < yp && 0 <= c < width ==> (#[trigger] proximity@[r]@[c]) as int
                        == spec_pixel_proximity(
                        pixel_march(scene, self@, raymarch_options@, c, r),
                    ),
                forall|r: int, c: int|
                    0 <= r < yp && 0 <= c < width ==> (#[trigger] normals@[r]@[c])@
                        == spec_pixel_normal(pixel_march(scene, self@, raymarch_options@, c, r)),
            decreases height - yp,
        {
            let y = mul_div(yp as i64, SCALE, height as i64) - 32768;
            let mut drow: Vec<DepthValue> = Vec::new();
            let mut prow: Vec<i64> = Vec::new();
            let mut nrow: Vec<Vec3> = Vec::new();
            let mut xp: usize = 0;
            while xp < width
                invariant
                    scene.wf(),
                    self@.wf(),
                    raymarch_options@.valid(),
                    width == self.width,
                    height == self.height,
                    yp < height,
                    xp <= width,
                    y as int == crate::fixed::tdiv(yp as int * SCALE, height as int) - SCALE / 2,
                    drow@.len() == xp,
                    prow@.len() == xp,
                    nrow@.len() == xp,
                    forall|c: int|
                        0 <= c < xp ==> (#[trigger] drow@[c])@ == spec_pixel_depth(
                            pixel_march(scene, self@, raymarch_options@, c, yp as int),
                        ),
                    forall|c: int|
                        0 <= c < xp ==> (#[trigger] prow@[c]) as int == spec_pixel_proximity(
                            pixel_march(scene, self@, raymarch_options@, c, yp as int),
                        ),
                    forall|c: int|
                        0 <= c < xp ==> (#[trigger] nrow@[c])@ == spec_pixel_normal(
                            pixel_march(scene, self@, raymarch_options@, c, yp as int),
                        ),
                decreases width - xp,
            {
                let x = mul_div(xp as i64, SCALE, width as i64) - 32768;
                let raw = Vec3 { x, y, z: SCALE };
                let nd = raw.normalize();
                let direction = self.basis.mul_vec(&nd);
                let ray = Ray { origin: self.origin, direction };
                proof {
                    assert(ray@ == pixel_ray(self@, xp as int, yp as int));
                }
                let res = raymarch(ray, scene, raymarch_options);
                match res {
                    RaymarchResult::MissedScene { nearest_distance, .. } => {
                        drow.push(DepthValue::Infinite);
                        prow.push(nearest_distance);
                        nrow.push(Vec3 { x: 0, y: 0, z: 0 });
                    },
                    RaymarchResult::ReachedMaxIterations { nearest_distance } => {
                        drow.push(DepthValue::Undetermined);
                        prow.push(nearest_distance);
                        nrow.push(Vec3 { x: 0, y: 0, z: 0 });
                    },
                    RaymarchResult::HitScene { depth: hit_depth, normal, .. } => {
                        drow.push(DepthValue::Finite(hit_depth));
                        prow.push(0);
                        nrow.push(normal);
                    },
                }
                xp = xp + 1;
            }
            depth.push(drow);
            proximity.push(prow);
            normals.push(nrow);
            yp = yp + 1;
        }
        RenderResult { depth, proximity, normals }
    }
}

/// The identity orientation: the basis whose columns are the coordinate axes.
pub open spec fn mat_identity() -> Mat3S {
    Mat3S {
        x_axis: Vec3S { x: SCALE as int, y: 0, z: 0 },
        y_axis: Vec3S { x: 0, y: SCALE as int, z: 0 },
        z_axis: Vec3S { x: 0, y: 0, z: SCALE as int },
    }
}

/// One unit times a scalar, rescaled, is the scalar again.
proof fn lemma_tdiv_unit(x: int)
    ensures
        crate::fixed::tdiv(SCALE as int * x, SCALE as int) == x,
        crate::fixed::tdiv(0 * x, SCALE as int) == 0,
{
    vstd::arithmetic::div_mod::lemma_basic_div(0, SCALE as int);
    if x >= 0 {
        vstd::arithmetic::div_mod::lemma_div_multiples_vanish(x, SCALE as int);
    } else {
        assert(-(SCALE as int * x) == SCALE as int * (-x)) by (nonlinear_arith);
        vstd::arithmetic::div_mod::lemma_div_multiples_vanish(-x, SCALE as int);
    }
}

/// The identity basis leaves a vector unchanged.
pub proof fn lemma_mat_identity(v: Vec3S)
    ensures
        mat_mul(mat_identity(), v) == v,
{
    lemma_tdiv_unit(v.x);
    lemma_tdiv_unit(v.y);
    lemma_tdiv_unit(v.z);
}

/// When the grid width divides `SCALE`, the device coordinates of the columns
/// `xp` and `width - xp` are exact negations of one another.
proof fn lemma_pixel_coord_mirror(xp: int, w: int)
    requires
        0 < w,
        0 <= xp <= w,
        (SCALE as int) % w == 0,
    ensures
        crate::fixed::tdiv((w - xp) * SCALE, w) - SCALE / 2 == -(crate::fixed::tdiv(
            xp * SCALE,
            w,
        ) - SCALE / 2),
{
    let u = (SCALE as int) / w;
    vstd::arithmetic::div_mod::lemma_fundamental_div_mod(SCALE as int, w);
    assert(SCALE as int == w * u);
    assert(xp * SCALE == w * (xp * u)) by (nonlinear_arith)
        requires
            SCALE as int == w * u,
    ;
    assert((w - xp) * SCALE == w * ((w - xp) * u)) by (nonlinear_arith)
        requires
            SCALE as int == w * u,
    ;
    assert(0 <= xp * u) by (nonlinear_arith)
        requires
            0 <= xp,
            0 <= u,
    ;
    assert(0 <= (w - xp) * u) by (nonlinear_arith)
        requires
            0 <= w - xp,
            0 <= u,
    ;
    vstd::arithmetic::div_mod::lemma_div_multiples_vanish(xp * u, w);
    vstd::arithmetic::div_mod::lemma_div_multiples_vanish((w - xp) * u, w);
    assert((w - xp) * u == w * u - xp * u) by (nonlinear_arith);
}

/// Mirror symmetry of a render: with the identity orientation, the camera on
/// the mirror plane `x = 0`, a scene symmetric across that plane, and a grid
/// width dividing `SCALE`, the pixels `xp` and `width - xp` of any row get
/// equal depths and proximities (their marches share one silhouette; only the
/// forward-difference normal estimate may differ). Column 0 pairs with the
/// out-of-grid column `width`; all interior columns mirror about the centre.
pub proof fn lemma_render_mirror_symmetric<S: DistanceField>(
    scene: &S,
    cam: CameraS,
    o: OptionsS,
    xp: int,
    yp: int,
)
    requires
        o.valid(),
        cam.wf(),
        cam.origin.x == 0,
        cam.basis == mat_identity(),
        (SCALE as int) % cam.width == 0,
        forall|p: Vec3S| scene.spec_distance(crate::vec3::mirror_x(p)) == scene.spec_distance(p),
        0 < xp < cam.width,
        0 <= yp < cam.height,
    ensures
        spec_pixel_depth(pixel_march(scene, cam, o, cam.width - xp, yp)) == spec_pixel_depth(
            pixel_march(scene, cam, o, xp, yp),
        ),
        spec_pixel_proximity(pixel_march(scene, cam, o, cam.width - xp, yp))
            == spec_pixel_proximity(pixel_march(scene, cam, o, xp, yp)),
{
    let w = cam.width;
    let yc = crate::fixed::tdiv(yp * SCALE, cam.height) - SCALE / 2;
    let raw = Vec3S { x: crate::fixed::tdiv(xp * SCALE, w) - SCALE / 2, y: yc, z: SCALE as int };
    let raw_m = Vec3S {
        x: crate::fixed::tdiv((w - xp) * SCALE, w) - SCALE / 2,
        y: yc,
        z: SCALE as int,
    };
    lemma_pixel_coord_mirror(xp, w);
    assert(raw_m == crate::vec3::mirror_x(raw));
    crate::vec3::lemma_v_norm_mirror(raw);
    lemma_mat_identity(crate::vec3::v_norm(raw));
    lemma_mat_identity(crate::vec3::v_norm(raw_m));
    let ray = pixel_ray(cam, xp, yp);
    assert(pixel_ray(cam, w - xp, yp) == crate::raymarch::mirror_ray(ray));
    crate::raymarch::lemma_march_mirror(scene, ray, o, 0, 0, o.far_clip);
}

} // verus!
