use vstd::prelude::*;
use crate::vector::{lemma_mul_abs_le, vdot, vsub, Vec4, Vector};

verus! {

/// Largest magnitude of a coordinate or radius that intersection accepts, so
/// that the quadratic's coefficients and discriminant are exact.
pub const COORD_LIMIT: i64 = 268435456;

/// The half-line `origin + t * direction`; the direction need not be
/// normalised.
#[derive(Clone, Copy, PartialEq, Eq, Structural, Debug)]
pub struct Ray {
    pub origin: Vector,
    pub direction: Vector,
}

/// A sphere given by its centre and radius.
#[derive(Clone, Copy, PartialEq, Eq, Structural, Debug)]
pub struct Sphere {
    pub position: Vector,
    pub radius: i64,
}

/// The quadratic `a t^2 + b t + c = 0` whose real roots
/// `t = (-b +- sqrt(discriminant)) / (2 a)` are where a ray meets a sphere.
#[derive(Clone, Copy, PartialEq, Eq, Structural, Debug)]
pub struct Intersection {
    pub a: i64,
    pub b: i64,
    pub c: i64,
    pub discriminant: i128,
}

/// Every component lies in `[-l, l]`.
pub open spec fn within(v: Vec4, l: int) -> bool {
    -l <= v.x <= l && -l <= v.y <= l && -l <= v.z <= l && -l <= v.w <= l
}

pub open spec fn quad_a(s: Sphere, ray: Ray) -> int {
    vdot(ray.direction@, ray.direction@)
}

pub open spec fn quad_b(s: Sphere, ray: Ray) -> int {
    2 * vdot(ray.direction@, vsub(ray.origin@, s.position@))
}

pub open spec fn quad_c(s: Sphere, ray: Ray) -> int {
    vdot(vsub(ray.origin@, s.position@), vsub(ray.origin@, s.position@)) - s.radius * s.radius
}

pub open spec fn quad_discriminant(s: Sphere, ray: Ray) -> int {
    quad_b(s, ray) * quad_b(s, ray) - 4 * quad_a(s, ray) * quad_c(s, ray)
}

/// The larger root `(-b + sqrt(b^2 - 4ac)) / (2a)` is positive. For `a > 0`
/// the roots have sum `-b / a` and product `c / a`, so this holds exactly when
/// one root is negative (`c < 0`) or both lie ahead (`b < 0`).
pub open spec fn larger_root_positive(a: int, b: int, c: int) -> bool {
    a > 0 && (b < 0 || c < 0)
}

proof fn lemma_dot_bound(u: Vec4, v: Vec4, lu: int, lv: int)
    requires
        within(u, lu),
        within(v, lv),
        0 <= lu * lv <= 0x1000_0000_0000_0000,
    ensures
        -(lu * lv) <= u.x * v.x <= lu * lv,
        -2 * (lu * lv) <= u.x * v.x + u.y * v.y <= 2 * (lu * lv),
        -3 * (lu * lv) <= u.x * v.x + u.y * v.y + u.z * v.z <= 3 * (lu * lv),
        -4 * (lu * lv) <= vdot(u, v) <= 4 * (lu * lv),
{
    let p = lu * lv;
    let px = u.x * v.x;
    let py = u.y * v.y;
    let pz = u.z * v.z;
    let pw = u.w * v.w;
    lemma_mul_abs_le(u.x, v.x, lu, lv);
    lemma_mul_abs_le(u.y, v.y, lu, lv);
    lemma_mul_abs_le(u.z, v.z, lu, lv);
    lemma_mul_abs_le(u.w, v.w, lu, lv);
    assert(-p <= px <= p && -p <= py <= p && -p <= pz <= p && -p <= pw <= p);
    assert(-2 * p <= px + py <= 2 * p);
    assert(-3 * p <= px + py + pz <= 3 * p);
    assert(-4 * p <= px + py + pz + pw <= 4 * p);
}

impl Sphere {
    /// The ray's coordinates and the sphere's lie within `COORD_LIMIT`.
    pub open spec fn in_range(&self, ray: Ray) -> bool {
        &&& within(ray.origin@, COORD_LIMIT as int)
        &&& within(ray.direction@, COORD_LIMIT as int)
        &&& within(self.position@, COORD_LIMIT as int)
        &&& -(COORD_LIMIT as int) <= self.radius <= COORD_LIMIT as int
    }

    /// Where the ray meets the sphere: the quadratic in `t`, or `None` when its
    /// discriminant is negative and the ray misses.
    pub fn intersect(&self, ray: Ray) -> (r: Option<Intersection>)
        requires
            self.in_range(ray),
        ensures
            r is None <==> quad_discriminant(*self, ray) < 0,
            r matches Some(i) ==> i.a == quad_a(*self, ray) && i.b == quad_b(*self, ray) && i.c
                == quad_c(*self, ray) && i.discriminant == quad_discriminant(*self, ray),
    {
        let l: i64 = COORD_LIMIT;
        proof {
            let li = l as int;
            assert(li == 268435456);
            assert(li * li == 0x100_0000_0000_0000);
            assert(li * (2 * li) == 0x200_0000_0000_0000);
            assert((2 * li) * (2 * li) == 0x400_0000_0000_0000);
            let st = vsub(ray.origin@, self.position@);
            assert(within(st, 2 * li));
            lemma_dot_bound(ray.direction@, ray.direction@, li, li);
            lemma_dot_bound(ray.direction@, st, li, 2 * li);
            lemma_dot_bound(st, st, 2 * li, 2 * li);
            lemma_mul_abs_le(self.radius as int, self.radius as int, li, li);
        }
        let sphere_to_ray = ray.origin.sub(self.position);
        let a = ray.direction.dot(ray.direction);
        let b = 2 * ray.direction.dot(sphere_to_ray);
        let c = sphere_to_ray.dot(sphere_to_ray) - self.radius * self.radius;
        proof {
            lemma_mul_abs_le(b as int, b as int, 0x1000_0000_0000_0000, 0x1000_0000_0000_0000);
            lemma_mul_abs_le(a as int, c as int, 0x400_0000_0000_0000, 0x1100_0000_0000_0000);
        }
        let discriminant: i128 = (b as i128) * (b as i128) - 4 * ((a as i128) * (c as i128));
        proof {
            assert(sphere_to_ray@ == vsub(ray.origin@, self.position@));
            assert(a == quad_a(*self, ray));
            assert(b == quad_b(*self, ray));
            assert(c == quad_c(*self, ray));
            assert(4 * ((a as int) * (c as int)) == 4 * (a as int) * (c as int)) by (nonlinear_arith);
            assert(discriminant == quad_discriminant(*self, ray));
        }
        if discriminant < 0 {
            return None;
        }
        Some(Intersection { a, b, c, discriminant })
    }

    /// Whether the ray meets the sphere at some point strictly ahead of its
    /// origin.
    pub fn hit(&self, ray: Ray) -> (r: bool)
        requires
            self.in_range(ray),
        ensures
            r == (quad_discriminant(*self, ray) >= 0 && larger_root_positive(
                quad_a(*self, ray),
                quad_b(*self, ray),
                quad_c(*self, ray),
            )),
    {
        match self.intersect(ray) {
            None => false,
            Some(i) => i.in_front(),
        }
    }
}

impl Intersection {
    /// Whether the larger root is strictly positive, decided without square
    /// roots.
    pub fn in_front(&self) -> (r: bool)
        ensures
            r == larger_root_positive(self.a as int, self.b as int, self.c as int),
    {
        self.a > 0 && (self.b < 0 || self.c < 0)
    }
}

} // verus!
