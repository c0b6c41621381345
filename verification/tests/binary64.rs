use ferrl::binary64::{checked_rotated_width, differs, round_whole, truncate_product, Real64};
use ferrl::votes::is_unanimous;

fn double(value: f64) -> Real64 {
    Real64 { bits: value.to_bits() }
}

/// Doubles of every kind, among them those next to the borders.
fn samples() -> Vec<f64> {
    let mut samples = vec![
        0.0,
        -0.0,
        f64::MIN_POSITIVE,
        f64::from_bits(1),
        f64::EPSILON,
        1e-9,
        0.1,
        0.25,
        0.3,
        0.5,
        1.0,
        1.0 + f64::EPSILON,
        1.0 - f64::EPSILON / 2.0,
        1.5,
        2.0,
        3.0,
        1e15,
        9007199254740992.0,
        1.8446744073709552e19,
        1e300,
        f64::MAX,
        f64::INFINITY,
        f64::NAN,
    ];
    let negative: Vec<f64> = samples.iter().map(|value| -value).collect();
    samples.extend(negative);
    let mut state = 0x2545_F491_4F6C_DD1Du64;
    for _ in 0..2000 {
        state ^= state << 13;
        state ^= state >> 7;
        state ^= state << 17;
        samples.push(f64::from_bits(state));
        samples.push((state >> 11) as f64 / (1u64 << 53) as f64);
    }
    samples
}

#[test]
fn classification_is_that_of_the_hardware() {
    for value in samples() {
        let real = double(value);
        assert_eq!(real.is_finite(), value.is_finite(), "{value:e}");
        assert_eq!(real.is_nan(), value.is_nan(), "{value:e}");
        assert_eq!(real.is_zero(), value == 0.0, "{value:e}");
        assert_eq!(real.is_above_zero(), value > 0.0, "{value:e}");
        assert_eq!(real.is_positive_finite(), value.is_finite() && value > 0.0, "{value:e}");
        assert_eq!(real.is_in_unit_interval(), value > 0.0 && value <= 1.0, "{value:e}");
    }
}

#[test]
fn products_truncate_as_the_hardware_does() {
    let wholes = [0usize, 1, 2, 3, 7, 8, 128, 256, 512, 1_000_003, 1 << 53, (1 << 53) + 1, usize::MAX];
    for whole in wholes {
        for value in samples() {
            assert_eq!(
                truncate_product(whole, double(value)),
                (whole as f64 * value) as usize,
                "{whole} * {value:e}"
            );
        }
    }
}

#[test]
fn rotated_widths_are_even_and_whole() {
    for whole in [0usize, 1, 2, 8, 9, 100, 128, 256, 512, 4096] {
        for value in samples() {
            if !(value > 0.0 && value <= 1.0) {
                continue;
            }
            let product = whole as f64 * value;
            let width = product as usize;
            let expected = if product.fract() > 1e-9 || width == 0 || width % 2 != 0 {
                None
            } else {
                Some(width)
            };
            assert_eq!(
                checked_rotated_width(whole, double(value)),
                expected,
                "{whole} * {value:e}"
            );
        }
    }
}

#[test]
fn whole_numbers_round_as_the_hardware_does() {
    for whole in [0u128, 1, 2, 3, (1 << 53) - 1, 1 << 53, (1 << 53) + 1, (1 << 53) + 3, (1 << 60) + 129] {
        assert_eq!(round_whole(whole), (whole as f64) as u128);
        assert!(double(whole as f64).is_whole(whole));
        assert!(!double(whole as f64 + 0.5).is_whole(whole) || whole as f64 + 0.5 == whole as f64);
    }
    assert!(double(-0.0).is_whole(0));
    assert!(!double(-1.0).is_whole(1));
    assert!(!double(f64::NAN).is_whole(0));
}

#[test]
fn differences_beyond_epsilon_are_noticed() {
    let near = [
        (1.0, 1.0),
        (1.0, 1.0 + f64::EPSILON),
        (1.0, 1.0 + 2.0 * f64::EPSILON),
        (0.7, 0.7),
        (0.1 + 0.2, 0.3),
        (0.0, -0.0),
        (1.0, 0.7),
        (-1.0, 1.0),
        (f64::INFINITY, f64::INFINITY),
        (f64::INFINITY, 1.0),
        (f64::NAN, 1.0),
        (1e300, -1e300),
        (f64::MIN_POSITIVE, 0.0),
        (f64::EPSILON, 0.0),
        (2.0 * f64::EPSILON, 0.0),
    ];
    for (left, right) in near {
        assert_eq!(
            differs(double(left), double(right)),
            left != right && !((left - right as f64).abs() <= f64::EPSILON),
            "{left:e} {right:e}"
        );
    }
    for number in [f64::NAN, -f64::NAN, 0.0, 1.0, f64::INFINITY, f64::NEG_INFINITY] {
        assert!(differs(double(f64::NAN), double(number)));
        assert!(differs(double(number), double(f64::NAN)));
    }
}

#[test]
fn votes_are_unanimous_when_none_or_all_are_cast() {
    for world in 1usize..6 {
        for votes in 0..=world {
            assert_eq!(is_unanimous(double(votes as f64), world), votes == 0 || votes == world);
        }
        assert!(!is_unanimous(double(0.5), world));
        assert!(!is_unanimous(double(f64::NAN), world));
    }
}

#[test]
fn a_fraction_of_a_width_is_at_most_the_width() {
    for whole in [1usize, 2, 7, 128, 512, (1 << 53) - 1] {
        for value in samples() {
            if value > 0.0 && value <= 1.0 {
                assert!(truncate_product(whole, double(value)) <= whole, "{whole} * {value:e}");
            }
        }
        assert_eq!(truncate_product(whole, double(1.0)), whole);
    }
}
