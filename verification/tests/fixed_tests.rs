use wallcraft::fixed::{cos_milli, diagonal, isqrt, scale_milli, sin_milli};

#[test]
fn sine_hits_the_cardinal_points() {
    assert_eq!(sin_milli(0), 0);
    assert_eq!(sin_milli(900), 1000);
    assert_eq!(sin_milli(1800), 0);
    assert_eq!(sin_milli(2700), -1000);
    assert_eq!(cos_milli(0), 1000);
    assert_eq!(cos_milli(900), 0);
    assert_eq!(cos_milli(1800), -1000);
}

#[test]
fn sine_approximation_is_close() {
    // The approximation promises a few-per-mille accuracy; spot-check
    // against rounded reference values of 1000 * sin(30/45/60 degrees).
    assert!((sin_milli(300) - 500).abs() <= 6);
    assert!((sin_milli(450) - 707).abs() <= 6);
    assert!((sin_milli(600) - 866).abs() <= 6);
    for a in 0..3600 {
        let s = sin_milli(a);
        let c = cos_milli(a);
        assert!((-1000..=1000).contains(&s));
        assert!((-1000..=1000).contains(&c));
    }
}

#[test]
fn integer_square_root_is_exact() {
    assert_eq!(isqrt(0), 0);
    assert_eq!(isqrt(1), 1);
    assert_eq!(isqrt(3), 1);
    assert_eq!(isqrt(4), 2);
    assert_eq!(isqrt(999_999), 999);
    assert_eq!(isqrt(1_000_000), 1000);
    assert_eq!(isqrt(2_000_000_000_000), 1_414_213);
}

#[test]
fn diagonal_of_screen_sizes() {
    // 19200 x 10800 deci-pixels: the 1920x1080 canvas.
    assert_eq!(diagonal(19200, 10800), 22029);
    assert_eq!(diagonal(30, 40), 50);
    assert_eq!(diagonal(0, 70), 70);
}

#[test]
fn milli_scaling_rounds_toward_zero() {
    assert_eq!(scale_milli(1000, 500), 500);
    assert_eq!(scale_milli(1000, -500), -500);
    assert_eq!(scale_milli(-1000, 500), -500);
    assert_eq!(scale_milli(-1000, -500), 500);
    assert_eq!(scale_milli(999, 1), 0);
    assert_eq!(scale_milli(7, -1000), -7);
}
