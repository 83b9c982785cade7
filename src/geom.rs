use vstd::prelude::*;

use crate::fp::{
    fp, fp_abs, fp_add, fp_mul, fp_neg, fp_of, fp_quot, fp_sqrt, fp_sub, lemma_fp_of_exact, FpError, FP,
};
use crate::v::{v_add, v_cross, v_dot, v_normalized, v_scale, v_sub, V3};

verus! {

/// A half-line: where it starts and its unit direction.
#[derive(Clone, Copy, Debug, PartialEq, Eq, Structural)]
pub struct Ray {
    pub origin: V3,
    pub dir: V3,
}

/// A fixed pinhole camera: position, forward unit direction and up unit direction.
#[derive(Clone, Copy, Debug, PartialEq, Eq, Structural)]
pub struct Frustum {
    pub origin: V3,
    pub dir: V3,
    pub up: V3,
}

/// Screen coordinate that the forward direction passes through, on both axes.
pub const SCREEN_CENTER: i32 = 32;

/// Screen units per world unit, horizontally.
pub const H_SCALE: i32 = 16;

/// Screen units per world unit, vertically.
pub const V_SCALE: i32 = 32;

/// Offset of a screen coordinate from the center, in world units.
pub open spec fn screen_offset(s: u32, scale: int) -> FP {
    fp_quot(fp_sub(fp_of((s as i32) as int), fp_of(SCREEN_CENTER as int)), fp_of(scale))
}

/// Direction of the ray through a screen coordinate, before normalizing.
pub open spec fn ray_dir_at(f: Frustum, sx: u32, sy: u32) -> Result<V3, FpError> {
    match v_normalized(v_cross(f.dir, f.up)) {
        Err(e) => Err(e),
        Ok(right) => v_normalized(
            v_add(
                v_add(f.dir, v_scale(f.up, fp_neg(screen_offset(sy, V_SCALE as int)))),
                v_scale(right, screen_offset(sx, H_SCALE as int)),
            ),
        ),
    }
}

impl Frustum {
    /// The ray from the camera through screen coordinate (`screen_x`, `screen_y`):
    /// one world unit to the right per `H_SCALE` columns and one down per
    /// `V_SCALE` rows from the center.
    pub fn ray(&self, screen_x: u32, screen_y: u32) -> (r: Result<Ray, FpError>)
        ensures
            r == match ray_dir_at(*self, screen_x, screen_y) {
                Err(e) => Err(e),
                Ok(d) => Ok(Ray { origin: self.origin, dir: d }),
            },
    {
        #[verifier::truncate]
        let sx = screen_x as i32;
        #[verifier::truncate]
        let sy = screen_y as i32;
        proof {
            lemma_fp_of_exact(H_SCALE as int);
            lemma_fp_of_exact(V_SCALE as int);
        }
        let x = (fp(sx) - fp(SCREEN_CENTER)) / fp(H_SCALE);
        let y = (fp(sy) - fp(SCREEN_CENTER)) / fp(V_SCALE);

        let right = match self.dir.cross(&self.up).normalized() {
            Ok(r) => r,
            Err(e) => return Err(e),
        };

        match (self.dir + self.up * core::ops::Neg::neg(y) + right * x).normalized() {
            Ok(dir) => Ok(Ray { origin: self.origin, dir: dir }),
            Err(e) => Err(e),
        }
    }
}

/// Where a ray meets a surface: the distance along the ray and the surface normal.
#[derive(Clone, Copy, Debug, PartialEq, Eq, Structural)]
pub struct Intersection {
    pub distance: FP,
    pub normal: V3,
}

/// A body that a ray can be intersected with analytically.
pub trait Body {
    spec fn intersection_of(&self, ray: Ray) -> Result<Option<Intersection>, FpError>;

    fn intersection(&self, ray: &Ray) -> (r: Result<Option<Intersection>, FpError>)
        ensures
            r == self.intersection_of(*ray),
    ;
}

#[derive(Clone, Copy, Debug, PartialEq, Eq, Structural)]
pub struct Sphere {
    pub center: V3,
    pub radius: FP,
}

/// Discriminant of the quadratic `a t^2 + b t + c` whose roots are where a ray
/// meets a sphere, with its coefficients.
pub open spec fn sphere_quadratic(s: Sphere, ray: Ray) -> (FP, FP, FP) {
    let a = v_dot(ray.dir, ray.dir);
    let to_sphere = v_sub(ray.origin, s.center);
    let b = fp_mul(fp_of(2), v_dot(ray.dir, to_sphere));
    let c = fp_sub(v_dot(to_sphere, to_sphere), fp_mul(s.radius, s.radius));
    (a, b, fp_sub(fp_mul(b, b), fp_mul(fp_mul(fp_of(4), a), c)))
}

/// The nearer crossing of a ray with a sphere, from the roots
/// `(-b -+ sqrt(delta)) / 2 * a`; none where `delta` is not positive.
pub open spec fn sphere_intersection(s: Sphere, ray: Ray) -> Result<Option<Intersection>, FpError> {
    let (a, b, delta) = sphere_quadratic(s, ray);
    if delta.0 <= 0 {
        Ok(None)
    } else {
        match fp_sqrt(delta) {
            Err(e) => Err(e),
            Ok(root) => {
                let p1 = fp_mul(fp_quot(fp_sub(fp_neg(b), root), fp_of(2)), a);
                let p2 = fp_mul(fp_quot(fp_add(fp_neg(b), root), fp_of(2)), a);
                let p = if p1.0 < p2.0 {
                    p1
                } else {
                    p2
                };
                let pos = v_add(ray.origin, v_scale(ray.dir, p));
                match v_normalized(v_sub(pos, s.center)) {
                    Err(e) => Err(e),
                    Ok(normal) => Ok(Some(Intersection { distance: p, normal })),
                }
            },
        }
    }
}

impl Body for Sphere {
    open spec fn intersection_of(&self, ray: Ray) -> Result<Option<Intersection>, FpError> {
        sphere_intersection(*self, ray)
    }

    fn intersection(&self, ray: &Ray) -> (r: Result<Option<Intersection>, FpError>) {
        proof {
            lemma_fp_of_exact(2);
        }
        let a = ray.dir.dot(&ray.dir);
        let to_sphere = ray.origin - self.center;
        let b = fp(2) * ray.dir.dot(&to_sphere);
        let c = to_sphere.dot(&to_sphere) - self.radius * self.radius;

        let delta = b * b - fp(4) * a * c;

        if delta.0 <= 0 {
            return Ok(None);
        }

        let root = match delta.sqrt() {
            Ok(root) => root,
            Err(e) => return Err(e),
        };
        let p1 = (core::ops::Neg::neg(b) - root) / fp(2) * a;
        let p2 = (core::ops::Neg::neg(b) + root) / fp(2) * a;

        let p = if p1.0 < p2.0 {
            p1
        } else {
            p2
        };

        let pos = ray.origin + ray.dir * p;
        match (pos - self.center).normalized() {
            Ok(normal) => Ok(Some(Intersection { distance: p, normal: normal })),
            Err(e) => Err(e),
        }
    }
}

#[derive(Clone, Copy, Debug, PartialEq, Eq, Structural)]
pub struct Plane {
    pub normal: V3,
    pub offset: FP,
}

/// Where a ray meets a plane ahead of its origin; none where the ray runs
/// (nearly) parallel to the plane, so that the cosine is at most one raw unit.
pub open spec fn plane_intersection(pl: Plane, ray: Ray) -> Option<Intersection> {
    let a = v_dot(pl.normal, ray.dir);
    if fp_abs(a).0 > 1 {
        let p0 = v_scale(pl.normal, pl.offset);
        let d = fp_quot(v_dot(v_sub(p0, ray.origin), pl.normal), a);
        if d.0 >= 0 {
            Some(Intersection { distance: d, normal: pl.normal })
        } else {
            None
        }
    } else {
        None
    }
}

impl Body for Plane {
    open spec fn intersection_of(&self, ray: Ray) -> Result<Option<Intersection>, FpError> {
        Ok(plane_intersection(*self, ray))
    }

    fn intersection(&self, ray: &Ray) -> (r: Result<Option<Intersection>, FpError>) {
        let a = self.normal.dot(&ray.dir);

        if a.abs().0 > 1 {
            let p0 = self.normal * self.offset;
            let d = (p0 - ray.origin).dot(&self.normal) / a;
            if d.0 >= 0 {
                return Ok(Some(Intersection { distance: d, normal: self.normal }));
            }
        }

        Ok(None)
    }
}

} // verus!
