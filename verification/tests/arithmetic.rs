use feedforward::add_sat;
use feedforward::exp_fixed;
use feedforward::mul_fixed;
use feedforward::E_FIXED;
use feedforward::SCALE;

#[test]
fn mul_fixed_scales_products() {
    // 1.5 * 2.0 == 3.0
    assert_eq!(mul_fixed(3 * SCALE / 2, 2 * SCALE), 3 * SCALE);
    assert_eq!(mul_fixed(SCALE, SCALE), SCALE);
    assert_eq!(mul_fixed(-SCALE, SCALE), -SCALE);
    assert_eq!(mul_fixed(0, i64::MAX), 0);
}

#[test]
fn mul_fixed_truncates_toward_zero() {
    assert_eq!(mul_fixed(1, 1), 0);
    assert_eq!(mul_fixed(-1, 1), 0);
    assert_eq!(mul_fixed(-1, -1), 0);
}

#[test]
fn mul_fixed_saturates() {
    assert_eq!(mul_fixed(i64::MAX, 2 * SCALE), i64::MAX);
    assert_eq!(mul_fixed(i64::MIN, 2 * SCALE), i64::MIN);
    assert_eq!(mul_fixed(i64::MAX, -2 * SCALE), i64::MIN);
}

#[test]
fn add_sat_saturates() {
    assert_eq!(add_sat(1, 2), 3);
    assert_eq!(add_sat(i64::MAX, 1), i64::MAX);
    assert_eq!(add_sat(i64::MIN, -1), i64::MIN);
    assert_eq!(add_sat(i64::MAX, i64::MIN), -1);
}

#[test]
fn exp_fixed_anchors() {
    // e^0 == 1.0 exactly; e^1 is the fixed-point Euler constant.
    assert_eq!(exp_fixed(0), SCALE);
    assert_eq!(exp_fixed(SCALE), E_FIXED);
    // e^-1 in fixed point: floor(65536^2 / 178145).
    assert_eq!(exp_fixed(-SCALE), 24109);
}

#[test]
fn exp_fixed_positive_and_monotone_samples() {
    assert!(exp_fixed(-100 * SCALE) >= 1);
    assert!(exp_fixed(-SCALE) < exp_fixed(0));
    assert!(exp_fixed(0) < exp_fixed(SCALE));
    assert!(exp_fixed(SCALE) < exp_fixed(2 * SCALE));
}

#[test]
fn exp_fixed_clamps_extremes() {
    assert_eq!(exp_fixed(17 * SCALE), exp_fixed(16 * SCALE));
    assert_eq!(exp_fixed(i64::MAX), exp_fixed(16 * SCALE));
    assert_eq!(exp_fixed(-17 * SCALE), exp_fixed(-16 * SCALE));
    assert_eq!(exp_fixed(i64::MIN), exp_fixed(-16 * SCALE));
}
