use pdf_viewer::scalar::Scalar;
use pdf_viewer::scalar::INFINITY_BITS;
use pdf_viewer::scalar::ONE_BITS;
use pdf_viewer::scalar::ZERO_BITS;
use pdf_viewer::vibrancy::SIDEBAR_WIDTH_BITS;

fn scalar(x: f32) -> Scalar {
    Scalar { bits: x.to_bits() }
}

#[test]
fn order_is_that_of_numbers() {
    let values: Vec<f32> = vec![
        f32::NEG_INFINITY,
        f32::MIN,
        -282.0,
        -1.5,
        -f32::MIN_POSITIVE,
        -1e-45,
        -0.0,
        0.0,
        1e-45,
        f32::MIN_POSITIVE,
        0.999,
        1.0,
        1.0000001,
        2.0,
        281.99997,
        282.0,
        282.00003,
        1e30,
        f32::MAX,
        f32::INFINITY,
        f32::NAN,
        -f32::NAN,
    ];
    for a in &values {
        for b in &values {
            assert_eq!(scalar(*a).less_than(scalar(*b)), a < b, "{} < {}", a, b);
        }
    }
}

#[test]
fn constants_are_the_numbers_they_name() {
    assert_eq!(f32::from_bits(ZERO_BITS), 0.0);
    assert_eq!(f32::from_bits(ONE_BITS), 1.0);
    assert_eq!(f32::from_bits(INFINITY_BITS), f32::INFINITY);
    assert_eq!(f32::from_bits(SIDEBAR_WIDTH_BITS), 282.0);
}
