use fixray::fp::FpError;
use fixray::geom::{Body, Intersection, Plane, Sphere};
use fixray::io::{put_decimal, putc, puti, puts};
use fixray::mandelbrot::{draw, mandelbrot};
use fixray::vga::Vga;
use fixray::{fp, v3, Color, Ray, FP};

#[test]
fn puts_sends_bytes() {
    let mut out = vec![1u8];
    puts(&mut out, "ab");
    assert_eq!(out, vec![1u8, b'a', b'b']);
    putc(&mut out, 7);
    assert_eq!(out, vec![1u8, b'a', b'b', 7]);
}

#[test]
fn puts_sends_one_unit_per_char() {
    let mut out = Vec::new();
    puts(&mut out, "\u{e9}");
    assert_eq!(out, vec![0xe9u8]);
    let mut out = Vec::new();
    puts(&mut out, "a\u{e9}b\u{141}");
    assert_eq!(out, vec![b'a', 0xe9, b'b', 0x41]);
    let mut out = Vec::new();
    Vga.puts(&mut out, "\u{e9}");
    assert_eq!(out, vec![0xe9u8]);
}

#[test]
fn puti_writes_decimal() {
    let mut out = Vec::new();
    puti(&mut out, 0);
    assert_eq!(out, b"0".to_vec());
    let mut out = Vec::new();
    puti(&mut out, -123);
    assert_eq!(out, b"-123".to_vec());
    let mut out = Vec::new();
    puti(&mut out, 4096);
    assert_eq!(out, b"4096".to_vec());
    let mut out = Vec::new();
    puti(&mut out, i32::MIN);
    assert_eq!(out, b"-2147483648".to_vec());
    let mut out = Vec::new();
    put_decimal(&mut out, u32::MAX);
    assert_eq!(out, b"4294967295".to_vec());
}

#[test]
fn vga_commands() {
    let vga = Vga;
    let mut out = Vec::new();
    vga.clear(&mut out);
    assert_eq!(out, b"\x1b[2J".to_vec());
    let mut out = Vec::new();
    vga.wrapon(&mut out);
    vga.wrapoff(&mut out);
    vga.home(&mut out);
    assert_eq!(out, b"\x1b[?7h\x1b[?7l\x1b[H".to_vec());
    let mut out = Vec::new();
    vga.color(&mut out, Color::Red, Color::Black);
    assert_eq!(out, b"\x1b[31;40m".to_vec());
    let mut out = Vec::new();
    vga.color(&mut out, Color::White, Color::Cyan);
    assert_eq!(out, b"\x1b[37;46m".to_vec());
    let mut out = Vec::new();
    vga.pos(&mut out, 3, 12);
    assert_eq!(out, b"\x1b[3;12H".to_vec());
    let mut out = Vec::new();
    vga.graphics_mode(&mut out, 16);
    assert_eq!(out, b"\x1b[16]".to_vec());
    let mut out = Vec::new();
    vga.puts(&mut out, "hi");
    assert_eq!(out, b"hi".to_vec());
}

#[test]
fn vga_escapes_control_bytes() {
    let vga = Vga;
    for c in [8u8, 10, 13, 27, 127] {
        let mut out = Vec::new();
        vga.putc_escaped(&mut out, c);
        assert_eq!(out, vec![27u8, c]);
    }
    let mut out = Vec::new();
    vga.putc_escaped(&mut out, b'A');
    assert_eq!(out, vec![b'A']);
    let mut out = Vec::new();
    vga.putc_escaped(&mut out, 255);
    assert_eq!(out, vec![255u8]);
}

#[test]
fn vga_draws_white_screen() {
    let mut out = Vec::new();
    Vga.draw_screen(&mut out, |_, _| Color::White);
    let mut expected = b"\x1b[16]\x1bG".to_vec();
    for k in 0..512 {
        if k == 511 {
            expected.extend_from_slice(b"\x1b[?7l");
        }
        expected.extend_from_slice(&[255u8, 255, 255]);
    }
    expected.extend_from_slice(b"\x1b[?7h\x1bT");
    assert_eq!(out, expected);
}

#[test]
fn vga_packs_pixels_into_masks() {
    let mut out = Vec::new();
    // In the first cell, pixel 0 is (1, 3) and pixel 7 is (0, 0).
    Vga.draw_screen(&mut out, |x, y| match (x, y) {
        (1, 3) => Color::Blue,
        (0, 0) => Color::Yellow,
        (2, 0) => Color::Green,
        _ => Color::Black,
    });
    let head = b"\x1b[16]\x1bG".len();
    assert_eq!(&out[head..head + 3], &[128u8, 128, 1]);
    // The second cell starts at x == 2; its pixel 7 is (2, 0), and 2 must be sent as is.
    assert_eq!(&out[head + 3..head + 6], &[0u8, 128, 0]);
}

#[test]
fn sphere_intersection_nearer_root() {
    let s = Sphere { center: v3(0, 10, 0), radius: fp(3) };
    let ray = Ray { origin: v3(0, 0, 0), dir: v3(0, 1, 0) };
    // The normal is (0, -3, 0) scaled by 1/3, which rounds to 85/256.
    let normal = fixray::V3::new(FP(0), FP(-255), FP(0));
    assert_eq!(s.intersection(&ray), Ok(Some(Intersection { distance: fp(7), normal })));
}

#[test]
fn sphere_missed() {
    let s = Sphere { center: v3(0, 10, 0), radius: fp(3) };
    let ray = Ray { origin: v3(0, 0, 0), dir: v3(1, 0, 0) };
    assert_eq!(s.intersection(&ray), Ok(None));
}

#[test]
fn sphere_intersection_fault() {
    // A zero direction from the sphere's center meets it at its center,
    // where the normal cannot be normalized.
    let s = Sphere { center: v3(0, 0, 0), radius: fp(3) };
    let ray = Ray { origin: v3(0, 0, 0), dir: v3(0, 0, 0) };
    assert_eq!(s.intersection(&ray), Ok(None));
    let ray = Ray { origin: v3(0, 0, 0), dir: V3N };
    assert_eq!(s.intersection(&ray), Err(FpError::DivisionByZero));
}

const V3N: fixray::V3 = fixray::V3 { x: FP(0), y: FP(0), z: FP(16) };

#[test]
fn plane_intersections() {
    let p = Plane { normal: v3(0, 0, 1), offset: fp(0) };
    let down = Ray { origin: v3(0, 0, 4), dir: v3(0, 0, -1) };
    assert_eq!(p.intersection(&down), Ok(Some(Intersection { distance: fp(4), normal: v3(0, 0, 1) })));
    let up = Ray { origin: v3(0, 0, 4), dir: v3(0, 0, 1) };
    assert_eq!(p.intersection(&up), Ok(None));
    let level = Ray { origin: v3(0, 0, 4), dir: v3(1, 0, 0) };
    assert_eq!(p.intersection(&level), Ok(None));
}

#[test]
fn mandelbrot_escape_times() {
    assert_eq!(mandelbrot(fp(0), fp(0)), 100);
    assert_eq!(mandelbrot(fp(-1), fp(0)), 100);
    assert_eq!(mandelbrot(fp(1), fp(0)), 2);
    assert_eq!(mandelbrot(fp(2), fp(2)), 0);
}

#[test]
fn mandelbrot_colors() {
    // (48, 32) is the origin of the plane, inside the set.
    assert_eq!(draw(48, 32), Color::Black);
    // Far right of the picture escapes at once.
    assert_eq!(draw(200, 32), Color::White);
}
