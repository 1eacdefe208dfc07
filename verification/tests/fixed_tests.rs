use particles::fixed::{fx_add, clamp, fx_div, fx_mul, fx_sqrt, fx_sub};

#[test]
fn multiplication_rescales() {
    assert_eq!(fx_mul(1_500_000, 2_000_000), 3_000_000);
    assert_eq!(fx_mul(500_000, 500_000), 250_000);
    assert_eq!(fx_mul(0, 123_456), 0);
}

#[test]
fn multiplication_truncates_toward_zero() {
    assert_eq!(fx_mul(-3, 500_000), -1);
    assert_eq!(fx_mul(3, 500_000), 1);
}

#[test]
fn multiplication_saturates() {
    assert_eq!(fx_mul(i64::MAX, 2_000_000), i64::MAX);
    assert_eq!(fx_mul(i64::MIN, 2_000_000), i64::MIN);
}

#[test]
fn addition_saturates() {
    assert_eq!(fx_add(i64::MAX, 1), i64::MAX);
    assert_eq!(fx_add(i64::MIN, -1), i64::MIN);
    assert_eq!(fx_add(1_000_000, 2_000_000), 3_000_000);
    assert_eq!(fx_sub(1_000_000, 3_000_000), -2_000_000);
}

#[test]
fn division_by_zero_saturates_by_sign() {
    assert_eq!(fx_div(5, 0), i64::MAX);
    assert_eq!(fx_div(-5, 0), i64::MIN);
    assert_eq!(fx_div(0, 0), 0);
}

#[test]
fn division_rescales() {
    assert_eq!(fx_div(1_000_000, 3_000_000), 333_333);
    assert_eq!(fx_div(6_000_000, 2_000_000), 3_000_000);
    assert_eq!(fx_div(-1_000_000, 3_000_000), -333_333);
}

#[test]
fn square_root_is_exact_on_squares() {
    assert_eq!(fx_sqrt(4_000_000), 2_000_000);
    assert_eq!(fx_sqrt(1_000_000), 1_000_000);
    assert_eq!(fx_sqrt(0), 0);
}

#[test]
fn square_root_floors() {
    assert_eq!(fx_sqrt(2_000_000), 1_414_213);
}

#[test]
fn clamp_behaves() {
    assert_eq!(clamp(5, 0, 10), 5);
    assert_eq!(clamp(-5, 0, 10), 0);
    assert_eq!(clamp(15, 0, 10), 10);
}
