//! Fixed-point geometry: positions, scales, orientations, rays and the
//! ray-to-center hit test.
use vstd::prelude::*;

verus! {

/// Number of fixed-point steps in one world unit.
pub const FIXED_ONE: i32 = 1000;

/// Fixed-point value of a unit quaternion component equal to one.
pub const ROTATION_ONE: i32 = 1073741824;

/// A point or offset in world space, in fixed-point steps of `1 / FIXED_ONE`.
#[derive(Clone, Copy, Debug, PartialEq, Eq, Structural)]
pub struct Vec3i {
    pub x: i32,
    pub y: i32,
    pub z: i32,
}

/// A non-negative scale per axis, in fixed-point steps of `1 / FIXED_ONE`.
#[derive(Clone, Copy, Debug, PartialEq, Eq, Structural)]
pub struct Scale3 {
    pub x: u32,
    pub y: u32,
    pub z: u32,
}

/// An orientation as a quaternion whose components are scaled by `ROTATION_ONE`.
#[derive(Clone, Copy, Debug, PartialEq, Eq, Structural)]
pub struct Rotation {
    pub x: i32,
    pub y: i32,
    pub z: i32,
    pub w: i32,
}

/// A ray direction, quantized per axis; it need not be of unit length.
#[derive(Clone, Copy, Debug, PartialEq, Eq, Structural)]
pub struct Dir3 {
    pub x: i16,
    pub y: i16,
    pub z: i16,
}

/// A world-space pointer ray.
#[derive(Clone, Copy, Debug, PartialEq, Eq, Structural)]
pub struct Ray {
    pub origin: Vec3i,
    pub direction: Dir3,
}

/// A mathematical 3-vector.
pub type V3 = (int, int, int);

impl Vec3i {
    pub open spec fn view(self) -> V3 {
        (self.x as int, self.y as int, self.z as int)
    }

    pub fn new(x: i32, y: i32, z: i32) -> (r: Vec3i)
        ensures
            r.x == x,
            r.y == y,
            r.z == z,
    {
        Vec3i { x, y, z }
    }

    pub fn zero() -> (r: Vec3i)
        ensures
            r@ == (0int, 0int, 0int),
    {
        Vec3i { x: 0, y: 0, z: 0 }
    }
}

impl Dir3 {
    pub open spec fn view(self) -> V3 {
        (self.x as int, self.y as int, self.z as int)
    }
}

impl Scale3 {
    /// The same scale on every axis.
    pub fn splat(s: u32) -> (r: Scale3)
        ensures
            r.x == s,
            r.y == s,
            r.z == s,
    {
        Scale3 { x: s, y: s, z: s }
    }
}

impl Rotation {
    pub open spec fn identity_spec() -> Rotation {
        Rotation { x: 0, y: 0, z: 0, w: ROTATION_ONE }
    }

    /// The identity orientation.
    pub fn identity() -> (r: Rotation)
        ensures
            r == Rotation::identity_spec(),
    {
        Rotation { x: 0, y: 0, z: 0, w: ROTATION_ONE }
    }
}

pub open spec fn sub3(a: V3, b: V3) -> V3 {
    (a.0 - b.0, a.1 - b.1, a.2 - b.2)
}

pub open spec fn dot3(a: V3, b: V3) -> int {
    a.0 * b.0 + a.1 * b.1 + a.2 * b.2
}

pub open spec fn cross3(a: V3, b: V3) -> V3 {
    (a.1 * b.2 - a.2 * b.1, a.2 * b.0 - a.0 * b.2, a.0 * b.1 - a.1 * b.0)
}

/// The offset from a center to the ray's origin.
pub open spec fn ray_offset(ray: Ray, center: Vec3i) -> V3 {
    sub3(ray.origin@, center@)
}

/// The squared distance from the center to the ray's line, multiplied by the
/// squared length of the direction: with `c` the offset and `d` the direction,
/// `|c x d| == |c| |d| sin(c, d)`, the distance times `|d|`.
pub open spec fn scaled_line_dist_sq(ray: Ray, center: Vec3i) -> int {
    let k = cross3(ray_offset(ray, center), ray.direction@);
    dot3(k, k)
}

/// Whether the closest approach of the ray's line to the center lies within
/// `radius`. A zero direction degenerates to the distance from the origin.
pub open spec fn within_radius(ray: Ray, center: Vec3i, radius: u32) -> bool {
    let c = ray_offset(ray, center);
    let d = ray.direction@;
    if dot3(d, d) == 0 {
        dot3(c, c) <= radius * radius
    } else {
        scaled_line_dist_sq(ray, center) <= radius * radius * dot3(d, d)
    }
}

/// The ray's line passes exactly through the center.
pub open spec fn passes_through(ray: Ray, center: Vec3i) -> bool {
    let c = ray_offset(ray, center);
    let d = ray.direction@;
    if dot3(d, d) == 0 {
        c == (0int, 0int, 0int)
    } else {
        cross3(c, d) == (0int, 0int, 0int)
    }
}

/// The closest approach of the ray's line to the center is strictly farther
/// than `radius`.
pub open spec fn passes_farther_than(ray: Ray, center: Vec3i, radius: u32) -> bool {
    let c = ray_offset(ray, center);
    let d = ray.direction@;
    if dot3(d, d) == 0 {
        dot3(c, c) > radius * radius
    } else {
        scaled_line_dist_sq(ray, center) > radius * radius * dot3(d, d)
    }
}

proof fn lemma_square_nonneg(a: int)
    ensures
        a * a >= 0,
{
    assert(a * a >= 0) by (nonlinear_arith);
}

/// A ray whose line passes exactly through a center always hits it, whatever
/// the radius.
pub proof fn lemma_ray_through_center_hits(ray: Ray, center: Vec3i, radius: u32)
    requires
        passes_through(ray, center),
    ensures
        within_radius(ray, center, radius),
{
    let d = ray.direction@;
    let dd = dot3(d, d);
    let rr = radius * radius;
    lemma_square_nonneg(radius as int);
    lemma_square_nonneg(d.0);
    lemma_square_nonneg(d.1);
    lemma_square_nonneg(d.2);
    assert(rr * dd >= 0) by (nonlinear_arith)
        requires
            rr >= 0,
            dd >= 0,
    ;
}

/// A ray whose line passes strictly farther from a center than the radius
/// never hits it.
pub proof fn lemma_ray_farther_than_radius_misses(ray: Ray, center: Vec3i, radius: u32)
    requires
        passes_farther_than(ray, center, radius),
    ensures
        !within_radius(ray, center, radius),
{
}

proof fn lemma_abs_mul_le(a: int, b: int, ba: int, bb: int)
    requires
        -ba <= a <= ba,
        -bb <= b <= bb,
    ensures
        -(ba * bb) <= a * b <= ba * bb,
{
    assert(-(ba * bb) <= a * b <= ba * bb) by (nonlinear_arith)
        requires
            -ba <= a <= ba,
            -bb <= b <= bb,
    ;
}

/// Whether the ray's line comes within `radius` of the center.
pub fn ray_hits(ray: &Ray, center: &Vec3i, radius: u32) -> (r: bool)
    ensures
        r == within_radius(*ray, *center, radius),
{
    let cx: i128 = ray.origin.x as i128 - center.x as i128;
    let cy: i128 = ray.origin.y as i128 - center.y as i128;
    let cz: i128 = ray.origin.z as i128 - center.z as i128;
    let dx: i128 = ray.direction.x as i128;
    let dy: i128 = ray.direction.y as i128;
    let dz: i128 = ray.direction.z as i128;
    let bc: Ghost<int> = Ghost(0x1_0000_0000);
    let bd: Ghost<int> = Ghost(0x8000);
    proof {
        lemma_abs_mul_le(cx as int, cx as int, bc@, bc@);
        lemma_abs_mul_le(cy as int, cy as int, bc@, bc@);
        lemma_abs_mul_le(cz as int, cz as int, bc@, bc@);
        lemma_abs_mul_le(dx as int, dx as int, bd@, bd@);
        lemma_abs_mul_le(dy as int, dy as int, bd@, bd@);
        lemma_abs_mul_le(dz as int, dz as int, bd@, bd@);
        lemma_abs_mul_le(radius as int, radius as int, bc@, bc@);
        lemma_abs_mul_le(cy as int, dz as int, bc@, bd@);
        lemma_abs_mul_le(cz as int, dy as int, bc@, bd@);
        lemma_abs_mul_le(cz as int, dx as int, bc@, bd@);
        lemma_abs_mul_le(cx as int, dz as int, bc@, bd@);
        lemma_abs_mul_le(cx as int, dy as int, bc@, bd@);
        lemma_abs_mul_le(cy as int, dx as int, bc@, bd@);
    }
    let rr: i128 = radius as i128 * radius as i128;
    let dd: i128 = dx * dx + dy * dy + dz * dz;
    if dd == 0 {
        cx * cx + cy * cy + cz * cz <= rr
    } else {
        let kx: i128 = cy * dz - cz * dy;
        let ky: i128 = cz * dx - cx * dz;
        let kz: i128 = cx * dy - cy * dx;
        let bk: Ghost<int> = Ghost(0x1_0000_0000_0000);
        let bs: Ghost<int> = Ghost(0x1_0000_0000_0000_0000);
        proof {
            lemma_abs_mul_le(kx as int, kx as int, bk@, bk@);
            lemma_abs_mul_le(ky as int, ky as int, bk@, bk@);
            lemma_abs_mul_le(kz as int, kz as int, bk@, bk@);
            lemma_square_nonneg(dx as int);
            lemma_square_nonneg(dy as int);
            lemma_square_nonneg(dz as int);
            lemma_square_nonneg(radius as int);
            lemma_abs_mul_le(rr as int, dd as int, bs@, bd@ * bd@ * 3);
        }
        kx * kx + ky * ky + kz * kz <= rr * dd
    }
}

} // verus!
