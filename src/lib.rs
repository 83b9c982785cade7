pub mod fp;
pub mod geom;
pub mod io;
pub mod mandelbrot;
pub mod scene;
pub mod v;
pub mod vga;

pub use fp::{fp, FpError, FP};
pub use geom::{Frustum, Ray};
pub use scene::{plane_fn, sphere_fn, Body, DistanceFn, Object, Scene, Union};
pub use v::{v3, V3};

use vstd::prelude::*;

use crate::fp::{
    fp_add, fp_mul, fp_of, fp_quot, lemma_fp_add_exact, lemma_fp_of_exact, lemma_wrap_id, trunc_div,
};
use crate::scene::FAR_AWAY;
use crate::v::{v_add, v_dot, v_normalized, v_scale, v_sub};

verus! {

/// 3-bit color: bit 0 is red, bit 1 green, bit 2 blue.
#[derive(Clone, Copy, Debug, PartialEq, Eq, Structural)]
pub enum Color {
    Black,
    Red,
    Green,
    Yellow,
    Blue,
    Magenta,
    Cyan,
    White,
}

/// The 3-bit code of a color.
pub open spec fn color_code(c: Color) -> u8 {
    match c {
        Color::Black => 0,
        Color::Red => 1,
        Color::Green => 2,
        Color::Yellow => 3,
        Color::Blue => 4,
        Color::Magenta => 5,
        Color::Cyan => 6,
        Color::White => 7,
    }
}

impl Color {
    /// The 3-bit code of the color.
    pub fn code(self) -> (r: u8)
        ensures
            r == color_code(self),
    {
        match self {
            Color::Black => 0,
            Color::Red => 1,
            Color::Green => 2,
            Color::Yellow => 3,
            Color::Blue => 4,
            Color::Magenta => 5,
            Color::Cyan => 6,
            Color::White => 7,
        }
    }
}

/// 3-bit display driver.
pub trait Driver {
    fn screen_size(&self) -> (u32, u32);

    /// Calls `pixel_f` once for every coordinate of the screen and shows the colors.
    fn draw_screen<F: Fn(u32, u32) -> Color>(&self, pixel_f: F);
}

/// What a surface does with light.
#[derive(Clone, Copy, Debug, PartialEq, Eq, Structural)]
pub enum Material {
    /// Perfect reflection.
    Mirror,
    /// Colors where the surface faces the light, in between, and away from it.
    Surface(Color, Color, Color),
}

/// A material as a function of position.
#[derive(Clone, Copy, Debug, PartialEq, Eq, Structural)]
pub enum MaterialFn {
    /// The same material everywhere.
    Constant(Material),
    /// Cubic cells of `CHECKER_CELL` units, alternating between two materials.
    Checkerboard(Material, Material),
}

/// Edge length of a checkerboard cell, in units.
pub const CHECKER_CELL: i32 = 8;

/// Index of the checkerboard cell along one axis: the coordinate divided by
/// the cell size, rounded toward zero, then rounded down to an integer.
pub open spec fn cell_index(c: FP) -> int {
    fp_quot(c, fp_of(CHECKER_CELL as int)).0 / 256
}

/// The material that a material function gives at `p`.
pub open spec fn material_fn_at(f: MaterialFn, p: V3) -> Material {
    match f {
        MaterialFn::Constant(m) => m,
        MaterialFn::Checkerboard(m1, m2) => {
            if (cell_index(p.x) + cell_index(p.y) + cell_index(p.z)) % 2 == 0 {
                m1
            } else {
                m2
            }
        },
    }
}

fn cell(c: FP) -> (r: i32)
    ensures
        r == cell_index(c),
        -0x20_0000 <= r <= 0x20_0000,
{
    proof {
        lemma_fp_of_exact(CHECKER_CELL as int);
        assert(-0x1000_0000 <= trunc_div(c.0 * 256, 2048) <= 0x1000_0000);
        lemma_wrap_id(trunc_div(c.0 * 256, 2048));
    }
    let q = c / fp(CHECKER_CELL);
    q.to_i32()
}

impl MaterialFn {
    pub fn eval(&self, p: &V3) -> (r: Material)
        ensures
            r == material_fn_at(*self, *p),
    {
        match self {
            MaterialFn::Constant(m) => *m,
            MaterialFn::Checkerboard(m1, m2) => {
                let s = cell(p.x) + cell(p.y) + cell(p.z);
                if s % 2 == 0 {
                    *m1
                } else {
                    *m2
                }
            },
        }
    }
}

/// Material function of cubic cells of `CHECKER_CELL` units, alternating
/// between `m1` and `m2`.
pub fn checkerboard(m1: Material, m2: Material) -> (r: MaterialFn)
    ensures
        r == MaterialFn::Checkerboard(m1, m2),
{
    MaterialFn::Checkerboard(m1, m2)
}

/// Material function that is `material` everywhere.
pub fn m(material: Material) -> (r: MaterialFn)
    ensures
        r == MaterialFn::Constant(material),
{
    MaterialFn::Constant(material)
}

/// Largest number of steps of a trace, mirror bounces included.
pub const MAX_STEPS: u32 = 256;

/// Distance along a ray, in units, beyond which the ray has escaped to the sky.
pub const ESCAPE_VELOCITY: i32 = 1000;

/// Raw distance by which a reflected ray starts off the mirror's surface.
pub const SURFACE_DEFLECT: i32 = 8;

/// Raw light angle (minus one half) below which a surface shows its highlight.
pub const HIGHLIGHT_ANGLE: i32 = -128;

/// Color of a surface whose normal makes `angle` with the light direction.
pub open spec fn shade(angle: FP, highlight: Color, base: Color, shadow: Color) -> Color {
    if angle.0 < HIGHLIGHT_ANGLE {
        highlight
    } else if angle.0 < 0 {
        base
    } else {
        shadow
    }
}

/// Color of the sky, tinted where it is seen in a mirror.
pub open spec fn sky(mirrored: bool) -> Color {
    if mirrored {
        Color::Blue
    } else {
        Color::Cyan
    }
}

/// Direction `dir` reflected off a surface of normal `n`.
pub open spec fn reflect(dir: V3, n: V3) -> Result<V3, FpError> {
    v_normalized(v_sub(dir, v_scale(n, fp_mul(fp_of(2), v_dot(dir, n)))))
}

/// The ray that leaves a mirror hit at `pos` by `ray`: reflected about the
/// mirror's normal, from a point `SURFACE_DEFLECT` off the surface.
pub open spec fn bounce<T: Body>(body: &T, ray: Ray, pos: V3) -> Result<Ray, FpError> {
    match body.normal_at(pos) {
        Err(e) => Err(e),
        Ok(n) => match reflect(ray.dir, n) {
            Err(e) => Err(e),
            Ok(r) => Ok(Ray { origin: v_add(pos, v_scale(n, FP(SURFACE_DEFLECT))), dir: r }),
        },
    }
}

/// Color of a surface at `pos`, lit from `light_dir`.
pub open spec fn surface_color<T: Body>(
    body: &T,
    pos: V3,
    light_dir: V3,
    highlight: Color,
    base: Color,
    shadow: Color,
) -> Result<Color, FpError> {
    match body.normal_at(pos) {
        Err(e) => Err(e),
        Ok(n) => Ok(shade(v_dot(light_dir, n), highlight, base, shadow)),
    }
}

/// The tracing state machine from `steps` steps taken, at distance `t` along
/// `ray`, with `mirrored` telling whether a mirror was hit on the way.
pub open spec fn march<T: Body>(
    body: &T,
    ray: Ray,
    light_dir: V3,
    t: FP,
    steps: nat,
    mirrored: bool,
) -> Result<Color, FpError>
    decreases MAX_STEPS + 1 - steps,
{
    if steps > MAX_STEPS {
        Ok(Color::Black)
    } else {
        let pos = v_add(ray.origin, v_scale(ray.dir, t));
        match body.distance_at(pos) {
            Err(e) => Err(e),
            Ok(d) => if d.0 <= 0 {
                match body.material_at(pos) {
                    Err(e) => Err(e),
                    Ok(Material::Mirror) => match bounce(body, ray, pos) {
                        Err(e) => Err(e),
                        Ok(next) => march(body, next, light_dir, FP(0), steps + 1, true),
                    },
                    Ok(Material::Surface(highlight, base, shadow)) => surface_color(
                        body,
                        pos,
                        light_dir,
                        highlight,
                        base,
                        shadow,
                    ),
                }
            } else if t.0 > fp_of(ESCAPE_VELOCITY as int).0 {
                Ok(sky(mirrored))
            } else {
                march(body, ray, light_dir, fp_add(t, d), steps + 1, mirrored)
            },
        }
    }
}

fn bounce_exec<T: Body>(body: &T, ray: &Ray, pos: &V3) -> (r: Result<Ray, FpError>)
    ensures
        r == bounce(body, *ray, *pos),
{
    let normal = match body.normal(pos) {
        Ok(n) => n,
        Err(e) => return Err(e),
    };
    let reflected = ray.dir - normal * (fp(2) * ray.dir.dot(&normal));
    let dir = match reflected.normalized() {
        Ok(r) => r,
        Err(e) => return Err(e),
    };
    // Start a little off the surface so as not to stick inside it.
    let origin = *pos + normal * FP(SURFACE_DEFLECT);
    Ok(Ray { origin: origin, dir: dir })
}

fn surface_color_exec<T: Body>(
    body: &T,
    pos: &V3,
    light_dir: &V3,
    highlight: Color,
    base: Color,
    shadow: Color,
) -> (r: Result<Color, FpError>)
    ensures
        r == surface_color(body, *pos, *light_dir, highlight, base, shadow),
{
    let normal = match body.normal(pos) {
        Ok(n) => n,
        Err(e) => return Err(e),
    };
    let light_angle = light_dir.dot(&normal);
    Ok(
        if light_angle.0 < HIGHLIGHT_ANGLE {
            highlight
        } else if light_angle.0 < 0 {
            base
        } else {
            shadow
        },
    )
}

/// Resolves a ray to a color by sphere marching through `body`.
///
/// Each step advances by the distance to the nearest surface. A crossed
/// surface is shaded by the angle between its normal and `light_dir` (which
/// points toward the light), or, for a mirror, starts a reflected ray from
/// distance zero. A ray that goes beyond `ESCAPE_VELOCITY` shows the sky; one
/// that takes more than `MAX_STEPS` steps, bounces included, is black. A fault
/// of the arithmetic on the way is returned as an error.
pub fn trace<T: Body>(body: &T, ray: Ray, light_dir: &V3) -> (r: Result<Color, FpError>)
    ensures
        r == march(body, ray, *light_dir, FP(0), 0, false),
{
    let mut current = ray;
    let mut advance = FP(0);
    let mut n_steps: u32 = 0;
    let mut is_mirror = false;
    let escape = fp(ESCAPE_VELOCITY);

    loop
        invariant
            n_steps <= MAX_STEPS,
            escape == fp_of(ESCAPE_VELOCITY as int),
            march(body, current, *light_dir, advance, n_steps as nat, is_mirror)
                == march(body, ray, *light_dir, FP(0), 0, false),
        decreases MAX_STEPS - n_steps,
    {
        let pos = current.origin + current.dir * advance;
        let d = match body.distance(&pos) {
            Ok(d) => d,
            Err(e) => return Err(e),
        };

        if d.0 <= 0 {
            match body.material(&pos) {
                Ok(Material::Mirror) => {
                    current = match bounce_exec(body, &current, &pos) {
                        Ok(next) => next,
                        Err(e) => return Err(e),
                    };
                    advance = FP(0);
                    is_mirror = true;
                    n_steps = n_steps + 1;
                    if n_steps > MAX_STEPS {
                        return Ok(Color::Black);
                    }
                    continue;
                },
                Ok(Material::Surface(highlight, base, shadow)) => {
                    return surface_color_exec(body, &pos, light_dir, highlight, base, shadow);
                },
                Err(e) => return Err(e),
            }
        }
        if advance.0 > escape.0 {
            return Ok(if is_mirror {
                Color::Blue
            } else {
                Color::Cyan
            });
        }
        advance = advance + d;
        n_steps = n_steps + 1;
        if n_steps > MAX_STEPS {
            return Ok(Color::Black);
        }
    }
}

/// Any ray traced through the empty scene escapes to the plain sky: its first
/// step jumps beyond `ESCAPE_VELOCITY`.
pub proof fn lemma_empty_scene_is_sky(ray: Ray, light_dir: V3)
    ensures
        march(&Scene, ray, light_dir, FP(0), 0, false) == Ok::<Color, FpError>(Color::Cyan),
{
    lemma_fp_of_exact(ESCAPE_VELOCITY as int);
    lemma_fp_add_exact(FP(0), FP(FAR_AWAY));
    let t1 = fp_add(FP(0), FP(FAR_AWAY));
    assert(march(&Scene, ray, light_dir, t1, 1, false) == Ok::<Color, FpError>(Color::Cyan));
}

/// From `steps` steps at distance `k * steps` along a field that is `k` raw
/// units away everywhere, the trace runs out of steps before it escapes.
proof fn lemma_constant_field_from<T: Body>(body: &T, ray: Ray, light_dir: V3, k: i32, steps: nat, mirrored: bool)
    requires
        1 <= k,
        k * (MAX_STEPS + 1) <= 256 * ESCAPE_VELOCITY,
        steps <= MAX_STEPS + 1,
        forall|p: V3| #[trigger] body.distance_at(p) == Ok::<FP, FpError>(FP(k)),
    ensures
        march(body, ray, light_dir, FP((k * steps) as i32), steps, mirrored) == Ok::<Color, FpError>(
            Color::Black,
        ),
    decreases MAX_STEPS + 1 - steps,
{
    if steps <= MAX_STEPS {
        assert(k * steps <= k * (MAX_STEPS + 1)) by (nonlinear_arith)
            requires
                1 <= k,
                steps <= MAX_STEPS + 1,
        ;
        assert(k * (steps + 1) == k * steps + k) by (nonlinear_arith);
        assert(k * (steps + 1) <= k * (MAX_STEPS + 1)) by (nonlinear_arith)
            requires
                1 <= k,
                steps <= MAX_STEPS,
        ;
        lemma_constant_field_from(body, ray, light_dir, k, steps + 1, mirrored);
        lemma_fp_of_exact(ESCAPE_VELOCITY as int);
        let t = FP((k * steps) as i32);
        lemma_fp_add_exact(t, FP(k));
        assert(fp_add(t, FP(k)) == FP((k * (steps + 1)) as i32));
        let pos = v_add(ray.origin, v_scale(ray.dir, t));
        assert(body.distance_at(pos) == Ok::<FP, FpError>(FP(k)));
    }
}

/// A field that is everywhere a small positive distance, so small that
/// `MAX_STEPS` steps stay within `ESCAPE_VELOCITY`, neither is hit nor lets
/// a ray escape: every trace through it is black.
pub proof fn lemma_constant_field_is_black<T: Body>(body: &T, ray: Ray, light_dir: V3, k: i32)
    requires
        1 <= k,
        k * (MAX_STEPS + 1) <= 256 * ESCAPE_VELOCITY,
        forall|p: V3| #[trigger] body.distance_at(p) == Ok::<FP, FpError>(FP(k)),
    ensures
        march(body, ray, light_dir, FP(0), 0, false) == Ok::<Color, FpError>(Color::Black),
{
    lemma_constant_field_from(body, ray, light_dir, k, 0, false);
    assert(FP((k * 0) as i32) == FP(0));
}

/// The point at distance `t` along `ray`.
pub open spec fn march_point(ray: Ray, t: FP) -> V3 {
    v_add(ray.origin, v_scale(ray.dir, t))
}

/// One step of the march along `ray` from distance `t` to `next` that neither
/// crosses a surface nor escapes: the distance there is positive, `t` is
/// within `ESCAPE_VELOCITY`, and `next` is `t` advanced by that distance.
pub open spec fn clear_step<T: Body>(body: &T, ray: Ray, t: FP, next: FP) -> bool {
    &&& body.distance_at(march_point(ray, t)) is Ok
    &&& (body.distance_at(march_point(ray, t))->Ok_0).0 > 0
    &&& t.0 <= fp_of(ESCAPE_VELOCITY as int).0
    &&& next == fp_add(t, body.distance_at(march_point(ray, t))->Ok_0)
}

/// Whether `ts` are the distances of successive clear steps along `ray`.
pub open spec fn clear_steps<T: Body>(body: &T, ray: Ray, ts: Seq<FP>) -> bool {
    forall|j: int| 0 <= j < ts.len() - 1 ==> clear_step(body, ray, #[trigger] ts[j], ts[j + 1])
}

/// Whether the march crosses a surface at distance `t` along `ray`.
pub open spec fn crossing<T: Body>(body: &T, ray: Ray, t: FP) -> bool {
    &&& body.distance_at(march_point(ray, t)) is Ok
    &&& (body.distance_at(march_point(ray, t))->Ok_0).0 <= 0
}

/// Clear steps leave the outcome of the march unchanged: from step `base + i`
/// at `ts[i]`, it is the outcome from the last of `ts`.
proof fn lemma_march_along<T: Body>(
    body: &T,
    ray: Ray,
    light_dir: V3,
    ts: Seq<FP>,
    base: nat,
    i: int,
    mirrored: bool,
)
    requires
        0 <= i < ts.len(),
        base + ts.len() <= MAX_STEPS + 2,
        clear_steps(body, ray, ts),
    ensures
        march(body, ray, light_dir, ts[i], (base + i) as nat, mirrored) == march(
            body,
            ray,
            light_dir,
            ts.last(),
            (base + ts.len() - 1) as nat,
            mirrored,
        ),
    decreases ts.len() - i,
{
    if i < ts.len() - 1 {
        lemma_march_along(body, ray, light_dir, ts, base, i + 1, mirrored);
        assert(clear_step(body, ray, ts[i], ts[i + 1]));
        assert(((base + i) as nat + 1) as nat == (base + (i + 1)) as nat);
    }
}

/// A march that takes clear steps from the ray's start and then crosses a
/// surface is shaded by that surface's normal at the crossing.
pub proof fn lemma_trace_hits_surface<T: Body>(
    body: &T,
    ray: Ray,
    light_dir: V3,
    ts: Seq<FP>,
    highlight: Color,
    base: Color,
    shadow: Color,
)
    requires
        1 <= ts.len() <= MAX_STEPS + 1,
        ts[0] == FP(0),
        clear_steps(body, ray, ts),
        crossing(body, ray, ts.last()),
        body.material_at(march_point(ray, ts.last())) == Ok::<Material, FpError>(
            Material::Surface(highlight, base, shadow),
        ),
        body.normal_at(march_point(ray, ts.last())) is Ok,
    ensures
        march(body, ray, light_dir, FP(0), 0, false) == Ok::<Color, FpError>(
            shade(
                v_dot(light_dir, body.normal_at(march_point(ray, ts.last()))->Ok_0),
                highlight,
                base,
                shadow,
            ),
        ),
{
    lemma_march_along(body, ray, light_dir, ts, 0, 0, false);
}

/// With the same color for highlight and base, a surface shows that color
/// exactly where its normal makes a negative angle with the light, and the
/// shadow color elsewhere.
pub proof fn lemma_shade_two_tone(angle: FP, lit: Color, shadow: Color)
    ensures
        shade(angle, lit, lit, shadow) == (if angle.0 < 0 {
            lit
        } else {
            shadow
        }),
{
}

/// A march that takes clear steps, meets a mirror, and then, along the
/// reflected ray, takes clear steps and crosses a surface, all within
/// `MAX_STEPS`, shows the shaded color of that second surface.
pub proof fn lemma_trace_mirror_then_surface<T: Body>(
    body: &T,
    ray: Ray,
    light_dir: V3,
    ts: Seq<FP>,
    reflected: Ray,
    us: Seq<FP>,
    highlight: Color,
    base: Color,
    shadow: Color,
)
    requires
        1 <= ts.len(),
        1 <= us.len(),
        ts.len() + us.len() <= MAX_STEPS + 1,
        ts[0] == FP(0),
        clear_steps(body, ray, ts),
        crossing(body, ray, ts.last()),
        body.material_at(march_point(ray, ts.last())) == Ok::<Material, FpError>(Material::Mirror),
        bounce(body, ray, march_point(ray, ts.last())) == Ok::<Ray, FpError>(reflected),
        us[0] == FP(0),
        clear_steps(body, reflected, us),
        crossing(body, reflected, us.last()),
        body.material_at(march_point(reflected, us.last())) == Ok::<Material, FpError>(
            Material::Surface(highlight, base, shadow),
        ),
        body.normal_at(march_point(reflected, us.last())) is Ok,
    ensures
        march(body, ray, light_dir, FP(0), 0, false) == Ok::<Color, FpError>(
            shade(
                v_dot(light_dir, body.normal_at(march_point(reflected, us.last()))->Ok_0),
                highlight,
                base,
                shadow,
            ),
        ),
{
    lemma_march_along(body, ray, light_dir, ts, 0, 0, false);
    lemma_march_along(body, reflected, light_dir, us, ts.len(), 0, true);
    assert((ts.len() - 1 + 1) as nat == (ts.len() + 0) as nat);
}

/// A march that takes only clear steps until it is beyond `ESCAPE_VELOCITY`,
/// within `MAX_STEPS`, shows the plain sky.
pub proof fn lemma_trace_escapes<T: Body>(body: &T, ray: Ray, light_dir: V3, ts: Seq<FP>)
    requires
        1 <= ts.len() <= MAX_STEPS + 1,
        ts[0] == FP(0),
        clear_steps(body, ray, ts),
        body.distance_at(march_point(ray, ts.last())) is Ok,
        (body.distance_at(march_point(ray, ts.last()))->Ok_0).0 > 0,
        ts.last().0 > fp_of(ESCAPE_VELOCITY as int).0,
    ensures
        march(body, ray, light_dir, FP(0), 0, false) == Ok::<Color, FpError>(Color::Cyan),
{
    lemma_march_along(body, ray, light_dir, ts, 0, 0, false);
}

/// A march whose first `MAX_STEPS + 1` steps are all clear neither hits
/// anything nor escapes: it runs out of steps and shows black.
pub proof fn lemma_trace_step_limit<T: Body>(body: &T, ray: Ray, light_dir: V3, ts: Seq<FP>)
    requires
        ts.len() == MAX_STEPS + 2,
        ts[0] == FP(0),
        clear_steps(body, ray, ts),
    ensures
        march(body, ray, light_dir, FP(0), 0, false) == Ok::<Color, FpError>(Color::Black),
{
    lemma_march_along(body, ray, light_dir, ts, 0, 0, false);
}

} // verus!
