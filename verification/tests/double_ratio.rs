use hexsight::double_ratio::{percent_round, percent_trunc};

#[test]
fn percent_matches_float_arithmetic_on_small_counts() {
    for n in 1u64..=300 {
        for c in 0..=2 * n {
            let expected = (c as f64 / n as f64 * 100.0) as i32;
            assert_eq!(percent_trunc(c, n), expected, "trunc {}/{}", c, n);
            let rounded = (c as f64 / n as f64 * 100.0).round() as i32;
            assert_eq!(percent_round(c, n), rounded, "round {}/{}", c, n);
        }
    }
}

#[test]
fn percent_matches_float_arithmetic_on_large_counts() {
    let bases: [u64; 6] = [1 << 53, (1 << 53) + 1, (1 << 60) + 12345, u64::MAX / 2, u64::MAX / 3, 999_999_999_999_999_999];
    for &n in bases.iter() {
        for &c in [0, 1, n / 7, n / 2, n - 1, n, n + n / 3].iter() {
            let expected = (c as f64 / n as f64 * 100.0) as i32;
            assert_eq!(percent_trunc(c, n), expected, "trunc {}/{}", c, n);
            let rounded = (c as f64 / n as f64 * 100.0).round() as i32;
            assert_eq!(percent_round(c, n), rounded, "round {}/{}", c, n);
        }
    }
}

#[test]
fn float_truncation_and_rounding_cases() {
    assert_eq!(percent_trunc(29, 50), 57);
    assert_eq!(percent_round(23, 40), 57);
    assert_eq!(percent_trunc(1, 2), 50);
    assert_eq!(percent_round(1, 8), 13);
}

#[test]
fn three_fifths_matches_float_product() {
    let samples: Vec<i32> = (-2000..=2000)
        .chain([i32::MIN, i32::MIN + 1, i32::MAX, i32::MAX - 4, 1 << 30, -(1 << 30), 357_913_940, -357_913_945].into_iter())
        .chain((0..2000).map(|k| k * 1_073_741 - 1_000_000_000))
        .collect();
    for x in samples {
        assert_eq!(hexsight::num::three_fifths(x), (x as f64 * 0.6) as i32, "x = {}", x);
    }
}
