use rayimg::fixed::{fdiv, fmul, fsqrt, sdiv, tan_half_deg, ONE};
use rayimg::rgb::RGB;

#[test]
fn rgb_components() {
    let brown = RGB::new(25559, 17039, 8519);
    assert!(brown.r() == 25559 && brown.g() == 17039 && brown.b() == 8519);
}

#[test]
fn rgb_as_bytes_quantizes() {
    let light_green = RGB::new(ONE, ONE, ONE / 2);
    assert_eq!(light_green.as_bytes(), [255, 255, 128]);
    let brown = RGB::new(25559, 17039, 8519);
    assert_eq!(brown.as_bytes(), [99, 66, 33]);
    let clamped = RGB::new(3 * ONE, -ONE, 0);
    assert_eq!(clamped.as_bytes(), [255, 0, 0]);
}

#[test]
fn rgb_gamma_is_square_root() {
    let some_color = RGB::new(655, 16384, 41943);
    assert_eq!(some_color.correct_gamma(), RGB::new(6551, 32768, 52428));
    let white = RGB::new(ONE, ONE, ONE);
    assert_eq!(white.correct_gamma(), white);
    let hot = RGB::new(4 * ONE, ONE, -ONE);
    assert_eq!(hot.correct_gamma(), RGB::new(ONE, ONE, 0));
}

#[test]
fn rgb_arithmetic() {
    let a = RGB::new(ONE, ONE / 2, 0);
    let b = RGB::new(ONE / 2, ONE / 2, ONE);
    assert_eq!(a.add(&b), RGB::new(ONE + ONE / 2, ONE, ONE));
    assert_eq!(a.mul(&b), RGB::new(ONE / 2, ONE / 4, 0));
    assert_eq!(a.scale(ONE / 2), RGB::new(ONE / 2, ONE / 4, 0));
    assert_eq!(RGB::new(9 * ONE, 3 * ONE, 0).div(3), RGB::new(3 * ONE, ONE, 0));
}

#[test]
fn fixed_point_scalars() {
    assert_eq!(fmul(2 * ONE, 3 * ONE), 6 * ONE);
    assert_eq!(fmul(ONE / 2, ONE / 2), ONE / 4);
    assert_eq!(fdiv(ONE, 2 * ONE), ONE / 2);
    assert_eq!(fdiv(-3 * ONE, 2 * ONE), -(3 * ONE) / 2);
    assert_eq!(sdiv(7 * ONE, 2), 7 * ONE / 2);
    assert_eq!(fsqrt(ONE), ONE);
    assert_eq!(fsqrt(4 * ONE), 2 * ONE);
    assert_eq!(fsqrt(0), 0);
    assert_eq!(fmul(i64::MAX, i64::MAX), i64::MAX);
    assert_eq!(fmul(i64::MAX, -i64::MAX), -i64::MAX);
}

#[test]
fn tangent_of_half_right_angle_is_near_one() {
    let t = tan_half_deg(90 * ONE);
    assert!((t - ONE).abs() < 100, "tan of half a right angle came out as {}", t);
    assert_eq!(tan_half_deg(0), 0);
}
