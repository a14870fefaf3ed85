use stray::fixed::{cos_fp, fp_mul, fp_trunc, normalize_coord, sin_fp, SCALE};
use stray::material::{srgb_linear_fp, StandardMaterial, StrayColor};

#[test]
fn sin_exact_quarter_points() {
    assert_eq!(sin_fp(0), 0);
    assert_eq!(sin_fp(90), SCALE);
    assert_eq!(sin_fp(180), 0);
    assert_eq!(sin_fp(270), -SCALE);
    assert_eq!(sin_fp(360), 0);
}

#[test]
fn sin_thirty_degrees_is_exactly_half() {
    // Bhaskara's rational form gives 1/2 at 30 degrees exactly.
    assert_eq!(sin_fp(30), SCALE / 2);
    assert_eq!(sin_fp(150), SCALE / 2);
    assert_eq!(sin_fp(210), -(SCALE / 2));
}

#[test]
fn sin_of_negative_angles_wraps() {
    assert_eq!(sin_fp(-90), -SCALE);
    assert_eq!(sin_fp(-360), 0);
    assert_eq!(sin_fp(-30), -(SCALE / 2));
}

#[test]
fn cos_exact_quarter_points() {
    assert_eq!(cos_fp(0), SCALE);
    assert_eq!(cos_fp(90), 0);
    assert_eq!(cos_fp(180), -SCALE);
    assert_eq!(cos_fp(-60), SCALE / 2);
}

#[test]
fn fp_mul_scales_back() {
    assert_eq!(fp_mul(2 * SCALE, 3 * SCALE), 6 * SCALE);
    assert_eq!(fp_mul(-2 * SCALE, 3 * SCALE), -6 * SCALE);
    assert_eq!(fp_mul(SCALE / 2, SCALE / 2), SCALE / 4);
    assert_eq!(fp_mul(0, 12345), 0);
}

#[test]
fn fp_trunc_rounds_toward_zero() {
    assert_eq!(fp_trunc(3 * SCALE + 1), 3);
    assert_eq!(fp_trunc(-(3 * SCALE + 1)), -3);
}

#[test]
fn normalize_half_extent_is_one() {
    // A vertex at half the surface width lands exactly on 1.0.
    assert_eq!(normalize_coord(300, 600), SCALE);
    assert_eq!(normalize_coord(-300, 600), -SCALE);
    assert_eq!(normalize_coord(0, 600), 0);
}

#[test]
fn normalize_truncates() {
    // 2 * 500 * 65536 / 600 truncated.
    assert_eq!(normalize_coord(500, 600), 109226);
    assert_eq!(normalize_coord(-500, 600), -109226);
}

#[test]
fn srgb_white_is_exactly_one() {
    assert_eq!(srgb_linear_fp(255), SCALE);
}

#[test]
fn srgb_black_is_near_zero() {
    // ((0/255 + 0.055)/1.055)^2.4 in Q16.16.
    assert_eq!(srgb_linear_fp(0), 54);
}

#[test]
fn srgb_is_monotone_on_samples() {
    let mut prev = -1i64;
    let mut c = 0i16;
    while c <= 255 {
        let v = srgb_linear_fp(c);
        assert!(v >= prev);
        assert!(0 <= v && v <= SCALE);
        prev = v;
        c += 15;
    }
}

#[test]
fn color_default_is_transparent_black() {
    let c = StrayColor::default();
    assert_eq!(c.r, 0);
    assert_eq!(c.g, 0);
    assert_eq!(c.b, 0);
    assert_eq!(c.a, 0);
}

#[test]
fn material_holds_its_color() {
    let c = StrayColor::new(255, 128, 0, SCALE);
    let m = StandardMaterial::new(c);
    assert_eq!(m.color, c);
}
