use swaystart::node::Percent;
use swaystart::share::share_of;

fn s_share(p: f64, extent: i32) -> i32 {
    share_of(Percent { bits: p.to_bits() }, extent)
}

#[test]
fn share_of_exact_fractions() {
    assert_eq!(s_share(0.25, 1000), 250);
    assert_eq!(s_share(0.75, 1000), 750);
    assert_eq!(s_share(0.5, 1920), 960);
    assert_eq!(s_share(0.5, 1921), 960);
    assert_eq!(s_share(1.0, 1080), 1080);
    assert_eq!(s_share(0.125, 7), 0);
    assert_eq!(s_share(0.125, 8), 1);
    assert_eq!(s_share(2.0, 3), 6);
    assert_eq!(s_share(1.5, 3), 4);
}

#[test]
fn share_rounds_down() {
    assert_eq!(s_share(0.1, 1000), 100);
    assert_eq!(s_share(0.7, 100), 69);
    assert_eq!(s_share(0.9, 10), 9);
    assert_eq!(s_share(0.999999, 1), 0);
}

#[test]
fn share_is_exact_where_rounded_arithmetic_is_not() {
    // The number nearest to three tenths is a little less than three tenths,
    // so ten times it is a little less than three.
    assert_eq!(s_share(0.3, 10), 2);
    // The number nearest to a third is a little less than a third.
    assert_eq!(s_share(1.0 / 3.0, 1920), 639);
    // The number nearest to a tenth is a little more than a tenth.
    assert_eq!(s_share(0.1, 10), 1);
}

#[test]
fn share_of_nothing_is_nothing() {
    assert_eq!(s_share(0.0, 1000), 0);
    assert_eq!(s_share(-0.0, 1000), 0);
    assert_eq!(s_share(0.5, 0), 0);
    assert_eq!(s_share(f64::INFINITY, 0), 0);
}

#[test]
fn share_of_negative_numbers_rounds_down_too() {
    assert_eq!(s_share(-0.5, 3), -2);
    assert_eq!(s_share(0.5, -3), -2);
    assert_eq!(s_share(-0.5, -3), 1);
    assert_eq!(s_share(-0.5, 4), -2);
    assert_eq!(s_share(-0.25, 1), -1);
    assert_eq!(s_share(-1.0, 5), -5);
}

#[test]
fn share_of_tiny_numbers() {
    assert_eq!(s_share(f64::MIN_POSITIVE, i32::MAX), 0);
    assert_eq!(s_share(-f64::MIN_POSITIVE, 1), -1);
    assert_eq!(s_share(5e-324, i32::MAX), 0);
    assert_eq!(s_share(-5e-324, 1), -1);
    assert_eq!(s_share(1e-30, 1000), 0);
}

#[test]
fn share_saturates() {
    assert_eq!(s_share(1e300, 1), i32::MAX);
    assert_eq!(s_share(-1e300, 1), i32::MIN);
    assert_eq!(s_share(1e300, -1), i32::MIN);
    assert_eq!(s_share(4.0, i32::MAX), i32::MAX);
    assert_eq!(s_share(-4.0, i32::MAX), i32::MIN);
    assert_eq!(s_share(1.0, i32::MAX), i32::MAX);
    assert_eq!(s_share(1.0, i32::MIN), i32::MIN);
    assert_eq!(s_share(-1.0, i32::MIN), i32::MAX);
    assert_eq!(s_share(f64::INFINITY, 5), i32::MAX);
    assert_eq!(s_share(f64::INFINITY, -5), i32::MIN);
    assert_eq!(s_share(f64::NEG_INFINITY, 5), i32::MIN);
    assert_eq!(s_share(f64::NEG_INFINITY, -5), i32::MAX);
    assert_eq!(s_share(4503599627370496.0, 1), i32::MAX);
    assert_eq!(s_share(2147483648.0, 1), i32::MAX);
    assert_eq!(s_share(2147483647.0, 1), i32::MAX);
    assert_eq!(s_share(2147483646.5, 1), 2147483646);
    assert_eq!(s_share(-2147483648.5, 1), i32::MIN);
    assert_eq!(s_share(-2147483647.5, 1), i32::MIN);
    assert_eq!(s_share(-2147483646.5, 1), -2147483647);
}

#[test]
fn share_of_what_is_not_a_number_is_zero() {
    assert_eq!(s_share(f64::NAN, 1000), 0);
    assert_eq!(share_of(Percent { bits: 0x7ff0_0000_0000_0001 }, 1000), 0);
    assert_eq!(share_of(Percent { bits: 0xfff8_0000_0000_0000 }, -3), 0);
}

#[test]
fn share_is_within_one_pixel_of_the_rounded_product() {
    let percents = [0.1, 0.2, 0.3, 1.0 / 3.0, 2.0 / 3.0, 0.45, 0.55, 0.6180339887, 0.999, 0.001];
    let extents = [1, 2, 3, 10, 100, 639, 640, 1000, 1080, 1366, 1920, 2560, 3840];
    for p in percents {
        for e in extents {
            let exact = s_share(p, e);
            let rounded = (p * (e as f64)).floor() as i32;
            assert!(exact == rounded || exact + 1 == rounded);
            assert!((exact as f64) <= p * (e as f64));
        }
    }
}

#[test]
fn share_agrees_with_rounded_arithmetic_on_dyadic_fractions() {
    let mut k = 0;
    while k <= 64 {
        let p = (k as f64) / 64.0;
        for e in [0, 1, 63, 64, 65, 1000, 1920, 4096] {
            assert_eq!(s_share(p, e), (p * (e as f64)).floor() as i32);
        }
        k += 1;
    }
}
