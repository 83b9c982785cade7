use vstd::prelude::*;

use crate::fp::{fp_sub, FpError, EPSILON, FP};
use crate::v::{v_add, v_dot, v_magnitude, v_sub, V3};
use crate::{Color, Material, MaterialFn, material_fn_at};

verus! {

/// Signed distance field object.
pub trait Body {
    /// Signed distance from `pos` to the surface of the body.
    spec fn distance_at(&self, pos: V3) -> Result<FP, FpError>;

    /// Material of the body at `pos`.
    spec fn material_at(&self, pos: V3) -> Result<Material, FpError>;

    /// Surface normal of the body at `pos`.
    spec fn normal_at(&self, pos: V3) -> Result<V3, FpError>;

    fn distance(&self, pos: &V3) -> (r: Result<FP, FpError>)
        ensures
            r == self.distance_at(*pos),
    ;

    fn material(&self, pos: &V3) -> (r: Result<Material, FpError>)
        ensures
            r == self.material_at(*pos),
    ;

    fn normal(&self, pos: &V3) -> (r: Result<V3, FpError>)
        ensures
            r == self.normal_at(*pos),
    ;
}

/// Difference of two distance samples, or the first fault among them.
pub open spec fn sample_diff(a: Result<FP, FpError>, b: Result<FP, FpError>) -> Result<FP, FpError> {
    match a {
        Err(e) => Err(e),
        Ok(u) => match b {
            Err(e) => Err(e),
            Ok(w) => Ok(fp_sub(u, w)),
        },
    }
}

/// Offset of `EPSILON` along one axis (0, 1 or 2 for x, y or z).
pub open spec fn axis_offset(axis: int) -> V3 {
    let e = FP(EPSILON);
    if axis == 0 {
        V3 { x: e, y: FP(0), z: FP(0) }
    } else if axis == 1 {
        V3 { x: FP(0), y: e, z: FP(0) }
    } else {
        V3 { x: FP(0), y: FP(0), z: e }
    }
}

/// Central difference of a distance function along one axis.
pub open spec fn central_diff(f: DistanceFn, pos: V3, axis: int) -> Result<FP, FpError> {
    sample_diff(
        distance_fn_at(f, v_add(pos, axis_offset(axis))),
        distance_fn_at(f, v_sub(pos, axis_offset(axis))),
    )
}

/// Gradient of a distance function by central differences, taken along x, y
/// and z in turn; the first fault ends it.
pub open spec fn gradient_at(f: DistanceFn, pos: V3) -> Result<V3, FpError> {
    match central_diff(f, pos, 0) {
        Err(e) => Err(e),
        Ok(gx) => match central_diff(f, pos, 1) {
            Err(e) => Err(e),
            Ok(gy) => match central_diff(f, pos, 2) {
                Err(e) => Err(e),
                Ok(gz) => Ok(V3 { x: gx, y: gy, z: gz }),
            },
        },
    }
}

fn central_diff_exec(f: &DistanceFn, pos: &V3, axis: u8) -> (r: Result<FP, FpError>)
    requires
        axis < 3,
    ensures
        r == central_diff(*f, *pos, axis as int),
{
    let e = FP(EPSILON);
    let off = if axis == 0 {
        V3::new(e, FP(0), FP(0))
    } else if axis == 1 {
        V3::new(FP(0), e, FP(0))
    } else {
        V3::new(FP(0), FP(0), e)
    };
    let a = match f.eval(&(*pos + off)) {
        Ok(a) => a,
        Err(e) => return Err(e),
    };
    let b = match f.eval(&(*pos - off)) {
        Ok(b) => b,
        Err(e) => return Err(e),
    };
    Ok(a - b)
}

impl V3 {
    /// Gradient of a distance function at this position, by central
    /// differences over a span of one unit: for a true distance field its
    /// length is about one.
    pub fn grad(&self, f: &DistanceFn) -> (r: Result<V3, FpError>)
        ensures
            r == gradient_at(*f, *self),
    {
        let gx = match central_diff_exec(f, self, 0) {
            Ok(g) => g,
            Err(e) => return Err(e),
        };
        let gy = match central_diff_exec(f, self, 1) {
            Ok(g) => g,
            Err(e) => return Err(e),
        };
        let gz = match central_diff_exec(f, self, 2) {
            Ok(g) => g,
            Err(e) => return Err(e),
        };
        Ok(V3::new(gx, gy, gz))
    }
}

/// Whether the second of two distance samples is strictly nearer; faults
/// come first, in the order the samples are taken.
pub open spec fn second_nearer(a: Result<FP, FpError>, b: Result<FP, FpError>) -> Result<bool, FpError> {
    match a {
        Err(e) => Err(e),
        Ok(da) => match b {
            Err(e) => Err(e),
            Ok(db) => Ok(db.0 < da.0),
        },
    }
}

/// A combination of two bodies: the nearer one decides, the first on a tie.
///
/// A `Union` is built by starting from a `Scene` and adding bodies to it with
/// `+`; each addition nests the earlier bodies one level deeper.
pub struct Union<T, U> {
    pub first: T,
    pub second: U,
}

impl<T: Body, U: Body> Body for Union<T, U> {
    open spec fn distance_at(&self, pos: V3) -> Result<FP, FpError> {
        match second_nearer(self.first.distance_at(pos), self.second.distance_at(pos)) {
            Err(e) => Err(e),
            Ok(true) => self.second.distance_at(pos),
            Ok(false) => self.first.distance_at(pos),
        }
    }

    open spec fn material_at(&self, pos: V3) -> Result<Material, FpError> {
        match second_nearer(self.first.distance_at(pos), self.second.distance_at(pos)) {
            Err(e) => Err(e),
            Ok(true) => self.second.material_at(pos),
            Ok(false) => self.first.material_at(pos),
        }
    }

    open spec fn normal_at(&self, pos: V3) -> Result<V3, FpError> {
        match second_nearer(self.first.distance_at(pos), self.second.distance_at(pos)) {
            Err(e) => Err(e),
            Ok(true) => self.second.normal_at(pos),
            Ok(false) => self.first.normal_at(pos),
        }
    }

    fn distance(&self, pos: &V3) -> (r: Result<FP, FpError>) {
        let a = match self.first.distance(pos) {
            Ok(a) => a,
            Err(e) => return Err(e),
        };
        let b = match self.second.distance(pos) {
            Ok(b) => b,
            Err(e) => return Err(e),
        };
        if b.0 < a.0 {
            Ok(b)
        } else {
            Ok(a)
        }
    }

    fn material(&self, pos: &V3) -> (r: Result<Material, FpError>) {
        match self.second_is_nearer(pos) {
            Ok(true) => self.second.material(pos),
            Ok(false) => self.first.material(pos),
            Err(e) => Err(e),
        }
    }

    /// Delegates to the nearer body's own normal, so that an analytic normal
    /// of a part is used before the gradient of the whole.
    fn normal(&self, pos: &V3) -> (r: Result<V3, FpError>) {
        match self.second_is_nearer(pos) {
            Ok(true) => self.second.normal(pos),
            Ok(false) => self.first.normal(pos),
            Err(e) => Err(e),
        }
    }
}

/// The smaller of two fixed-point values, the first on a tie.
pub open spec fn fp_min(a: FP, b: FP) -> FP {
    if a.0 <= b.0 {
        a
    } else {
        b
    }
}

/// At every position the distance of a union is the smaller of its two parts'
/// distances; where a part fails, the union fails with the first part's fault.
pub proof fn lemma_union_distance<T: Body, U: Body>(u: Union<T, U>, p: V3)
    ensures
        u.first.distance_at(p) is Ok && u.second.distance_at(p) is Ok ==> u.distance_at(p)
            == Ok::<FP, FpError>(fp_min(u.first.distance_at(p)->Ok_0, u.second.distance_at(p)->Ok_0)),
        u.first.distance_at(p) is Err ==> u.distance_at(p) == u.first.distance_at(p),
        u.first.distance_at(p) is Ok && u.second.distance_at(p) is Err ==> u.distance_at(p)
            == u.second.distance_at(p),
{
}

/// Where the two parts of a union are at exactly the same distance, the
/// union's material and normal are those of the first part.
pub proof fn lemma_union_tie<T: Body, U: Body>(u: Union<T, U>, p: V3)
    requires
        u.first.distance_at(p) is Ok,
        u.first.distance_at(p) == u.second.distance_at(p),
    ensures
        u.material_at(p) == u.first.material_at(p),
        u.normal_at(p) == u.first.normal_at(p),
{
}

/// Where the second part of a union is strictly nearer, the union's material
/// and normal are the second part's; otherwise they are the first part's.
pub proof fn lemma_union_nearer<T: Body, U: Body>(u: Union<T, U>, p: V3)
    requires
        u.first.distance_at(p) is Ok,
        u.second.distance_at(p) is Ok,
    ensures
        (u.second.distance_at(p)->Ok_0).0 < (u.first.distance_at(p)->Ok_0).0 ==> u.material_at(p)
            == u.second.material_at(p) && u.normal_at(p) == u.second.normal_at(p),
        (u.first.distance_at(p)->Ok_0).0 <= (u.second.distance_at(p)->Ok_0).0 ==> u.material_at(p)
            == u.first.material_at(p) && u.normal_at(p) == u.first.normal_at(p),
{
}

impl<T: Body, U: Body> Union<T, U> {
    fn second_is_nearer(&self, pos: &V3) -> (r: Result<bool, FpError>)
        ensures
            r == second_nearer(self.first.distance_at(*pos), self.second.distance_at(*pos)),
    {
        let a = match self.first.distance(pos) {
            Ok(a) => a,
            Err(e) => return Err(e),
        };
        let b = match self.second.distance(pos) {
            Ok(b) => b,
            Err(e) => return Err(e),
        };
        Ok(b.0 < a.0)
    }
}

impl<T: Body, U: Body, W: Body> core::ops::Add<W> for Union<T, U> {
    type Output = Union<Union<T, U>, W>;

    fn add(self, other: W) -> (r: Union<Union<T, U>, W>)
        ensures
            r == (Union { first: self, second: other }),
    {
        Union { first: self, second: other }
    }
}

impl<T: Body, U: Body, W: Body> vstd::std_specs::ops::AddSpecImpl<W> for Union<T, U> {
    open spec fn obeys_add_spec() -> bool {
        true
    }

    open spec fn add_req(self, rhs: W) -> bool {
        true
    }

    open spec fn add_spec(self, rhs: W) -> Union<Union<T, U>, W> {
        Union { first: self, second: rhs }
    }
}

/// Starter object for a scene: nothing, infinitely far away.
pub struct Scene;

/// Distance of the empty scene: the largest fixed-point value.
pub const FAR_AWAY: i32 = 0x7fff_ffff;

impl Body for Scene {
    open spec fn distance_at(&self, pos: V3) -> Result<FP, FpError> {
        Ok(FP(FAR_AWAY))
    }

    open spec fn material_at(&self, pos: V3) -> Result<Material, FpError> {
        Ok(Material::Surface(Color::Cyan, Color::Cyan, Color::Cyan))
    }

    /// The gradient of a constant field.
    open spec fn normal_at(&self, pos: V3) -> Result<V3, FpError> {
        Ok(V3 { x: FP(0), y: FP(0), z: FP(0) })
    }

    fn distance(&self, pos: &V3) -> (r: Result<FP, FpError>) {
        Ok(FP(FAR_AWAY))
    }

    fn material(&self, pos: &V3) -> (r: Result<Material, FpError>) {
        Ok(Material::Surface(Color::Cyan, Color::Cyan, Color::Cyan))
    }

    fn normal(&self, pos: &V3) -> (r: Result<V3, FpError>) {
        Ok(V3::new(FP(0), FP(0), FP(0)))
    }
}

impl<T: Body> core::ops::Add<T> for Scene {
    type Output = Union<Scene, T>;

    fn add(self, other: T) -> (r: Union<Scene, T>)
        ensures
            r == (Union { first: self, second: other }),
    {
        Union { first: self, second: other }
    }
}

impl<T: Body> vstd::std_specs::ops::AddSpecImpl<T> for Scene {
    open spec fn obeys_add_spec() -> bool {
        true
    }

    open spec fn add_req(self, rhs: T) -> bool {
        true
    }

    open spec fn add_spec(self, rhs: T) -> Union<Scene, T> {
        Union { first: self, second: rhs }
    }
}

/// A distance function of a primitive shape.
#[derive(Clone, Copy, Debug, PartialEq, Eq, Structural)]
pub enum DistanceFn {
    /// Distance to the surface of a sphere.
    Sphere { center: V3, radius: FP },
    /// Signed distance to the plane `p . normal == offset`.
    Plane { normal: V3, offset: FP },
}

/// The distance that a distance function gives at `p`; a sphere's needs a
/// square root, which may fail.
pub open spec fn distance_fn_at(f: DistanceFn, p: V3) -> Result<FP, FpError> {
    match f {
        DistanceFn::Sphere { center, radius } => match v_magnitude(v_sub(p, center)) {
            Err(e) => Err(e),
            Ok(m) => Ok(fp_sub(m, radius)),
        },
        DistanceFn::Plane { normal, offset } => Ok(fp_sub(v_dot(p, normal), offset)),
    }
}

impl DistanceFn {
    pub fn eval(&self, p: &V3) -> (r: Result<FP, FpError>)
        ensures
            r == distance_fn_at(*self, *p),
    {
        match self {
            DistanceFn::Sphere { center, radius } => match (*p - *center).abs() {
                Ok(m) => Ok(m - *radius),
                Err(e) => Err(e),
            },
            DistanceFn::Plane { normal, offset } => Ok(p.dot(normal) - *offset),
        }
    }
}

/// Distance function of the sphere of `center` and `radius`.
pub fn sphere_fn(center: V3, radius: FP) -> (r: DistanceFn)
    ensures
        r == (DistanceFn::Sphere { center, radius }),
{
    DistanceFn::Sphere { center, radius }
}

/// Distance function of the plane of unit `normal` at `offset` from the origin.
pub fn plane_fn(normal: V3, offset: FP) -> (r: DistanceFn)
    ensures
        r == (DistanceFn::Plane { normal, offset }),
{
    DistanceFn::Plane { normal, offset }
}

/// A leaf body: a distance function and a material function.
pub struct Object {
    pub distance_f: DistanceFn,
    pub material_f: MaterialFn,
}

impl Object {
    pub fn new(distance_f: DistanceFn, material_f: MaterialFn) -> (r: Object)
        ensures
            r.distance_f == distance_f,
            r.material_f == material_f,
    {
        Object { distance_f: distance_f, material_f: material_f }
    }
}

impl Body for Object {
    open spec fn distance_at(&self, pos: V3) -> Result<FP, FpError> {
        distance_fn_at(self.distance_f, pos)
    }

    open spec fn material_at(&self, pos: V3) -> Result<Material, FpError> {
        Ok(material_fn_at(self.material_f, pos))
    }

    open spec fn normal_at(&self, pos: V3) -> Result<V3, FpError> {
        gradient_at(self.distance_f, pos)
    }

    fn distance(&self, pos: &V3) -> (r: Result<FP, FpError>) {
        self.distance_f.eval(pos)
    }

    fn material(&self, pos: &V3) -> (r: Result<Material, FpError>) {
        Ok(self.material_f.eval(pos))
    }

    fn normal(&self, pos: &V3) -> (r: Result<V3, FpError>) {
        pos.grad(&self.distance_f)
    }
}

} // verus!
