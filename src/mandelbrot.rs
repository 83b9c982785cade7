use vstd::prelude::*;

use crate::fp::{fp, fp_add, fp_mul, fp_of, fp_quot, fp_sub, lemma_fp_of_exact, FP};
use crate::Color;

verus! {

/// Largest number of iterations of the escape-time test.
pub const ITER: usize = 100;

/// The iteration at which `z := z^2 + c` leaves the disc of radius 2, from
/// `z = x + iy` at iteration `i`; `ITER` where it stays inside.
pub open spec fn escape_time(cx: FP, cy: FP, x: FP, y: FP, i: nat) -> nat
    decreases ITER - i,
{
    if i >= ITER {
        ITER as nat
    } else {
        let x2 = fp_add(fp_sub(fp_mul(x, x), fp_mul(y, y)), cx);
        let y2 = fp_add(fp_mul(fp_mul(fp_of(2), x), y), cy);
        if fp_add(fp_mul(x2, x2), fp_mul(y2, y2)).0 > fp_of(4).0 {
            i
        } else {
            escape_time(cx, cy, x2, y2, i + 1)
        }
    }
}

/// Color bands of escape times.
pub open spec fn band_color(m: nat) -> Color {
    if m == 0 {
        Color::White
    } else if m < 10 {
        Color::Blue
    } else if m < 20 {
        Color::Magenta
    } else if m < 30 {
        Color::Red
    } else if m < 40 {
        Color::Green
    } else if m < 50 {
        Color::Yellow
    } else if m < 99 {
        Color::Cyan
    } else {
        Color::Black
    }
}

/// The point of the plane that screen coordinate `s` stands for, centered at
/// `center` with `per_unit` columns per unit, halved.
pub open spec fn plane_coord(s: u32, center: int, per_unit: int) -> FP {
    fp_quot(fp_quot(fp_sub(fp_of((s as i32) as int), fp_of(center)), fp_of(per_unit)), fp_of(2))
}

/// Escape time of the point `cx + i cy`.
pub fn mandelbrot(cx: FP, cy: FP) -> (r: usize)
    ensures
        r == escape_time(cx, cy, FP(0), FP(0), 0),
{
    proof {
        lemma_fp_of_exact(2);
        lemma_fp_of_exact(4);
    }
    let mut x = fp(0);
    let mut y = fp(0);
    proof {
        lemma_fp_of_exact(0);
    }

    let mut i: usize = 0;
    while i < ITER
        invariant
            i <= ITER,
            escape_time(cx, cy, x, y, i as nat) == escape_time(cx, cy, FP(0), FP(0), 0),
        decreases ITER - i,
    {
        let x2 = x * x - y * y + cx;
        y = fp(2) * x * y + cy;
        x = x2;

        if (x * x + y * y).0 > fp(4).0 {
            return i;
        }
        i = i + 1;
    }

    ITER
}

/// Color of screen pixel (`x`, `y`) in a picture of the Mandelbrot set.
pub fn draw(x: u32, y: u32) -> (r: Color)
    ensures
        r == band_color(escape_time(plane_coord(x, 48, 13), plane_coord(y, 32, 16), FP(0), FP(0), 0)),
{
    proof {
        lemma_fp_of_exact(2);
        lemma_fp_of_exact(13);
        lemma_fp_of_exact(16);
    }
    #[verifier::truncate]
    let sx = x as i32;
    #[verifier::truncate]
    let sy = y as i32;
    let x = (fp(sx) - fp(48)) / fp(13) / fp(2);
    let y = (fp(sy) - fp(32)) / fp(16) / fp(2);
    let m = mandelbrot(x, y);

    if m == 0 {
        Color::White
    } else if m < 10 {
        Color::Blue
    } else if m < 20 {
        Color::Magenta
    } else if m < 30 {
        Color::Red
    } else if m < 40 {
        Color::Green
    } else if m < 50 {
        Color::Yellow
    } else if m < 99 {
        Color::Cyan
    } else {
        Color::Black
    }
}

} // verus!
