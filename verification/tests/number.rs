use volctl::number::{parse_gain, render_decimal};

#[test]
fn gains_with_two_decimals() {
    for percent in 0..=100u32 {
        let token = format!("{}.{:02}", percent / 100, percent % 100);
        assert_eq!(parse_gain(&token), Some(percent as u8), "{token}");
    }
}

#[test]
fn gains_round_to_the_nearest_percent() {
    assert_eq!(parse_gain("0.004"), Some(0));
    assert_eq!(parse_gain("0.0049999999999999999999999999"), Some(0));
    assert_eq!(parse_gain("0.005"), Some(1));
    assert_eq!(parse_gain("0.0050000000000000000000000001"), Some(1));
    assert_eq!(parse_gain("0.014"), Some(1));
    assert_eq!(parse_gain("0.015"), Some(2));
    assert_eq!(parse_gain("0.445"), Some(45));
    assert_eq!(parse_gain("0.4449"), Some(44));
    assert_eq!(parse_gain("0.994"), Some(99));
    assert_eq!(parse_gain("0.995"), Some(100));
}

#[test]
fn gains_are_kept_within_bounds() {
    assert_eq!(parse_gain("1.004"), Some(100));
    assert_eq!(parse_gain("1.01"), Some(100));
    assert_eq!(parse_gain("2"), Some(100));
    assert_eq!(parse_gain("340282366920938463463374607431768211456"), Some(100));
    assert_eq!(parse_gain("-0.45"), Some(0));
    assert_eq!(parse_gain("-0"), Some(0));
    assert_eq!(parse_gain("-1e9"), Some(0));
}

#[test]
fn gains_in_every_form() {
    assert_eq!(parse_gain("0.45"), Some(45));
    assert_eq!(parse_gain("+0.45"), Some(45));
    assert_eq!(parse_gain(".45"), Some(45));
    assert_eq!(parse_gain("00000.45000"), Some(45));
    assert_eq!(parse_gain("0"), Some(0));
    assert_eq!(parse_gain("0."), Some(0));
    assert_eq!(parse_gain(".0"), Some(0));
    assert_eq!(parse_gain("1"), Some(100));
    assert_eq!(parse_gain("1."), Some(100));
    assert_eq!(parse_gain("4.5e-1"), Some(45));
    assert_eq!(parse_gain("4.5E-1"), Some(45));
    assert_eq!(parse_gain("45e-2"), Some(45));
    assert_eq!(parse_gain("450e-3"), Some(45));
    assert_eq!(parse_gain(".045e1"), Some(45));
    assert_eq!(parse_gain("0.0045e+02"), Some(45));
    assert_eq!(parse_gain("0.45e0"), Some(45));
    assert_eq!(parse_gain("0.45e-0"), Some(45));
    assert_eq!(parse_gain("1.e-1"), Some(10));
}

#[test]
fn exponents_of_any_size() {
    assert_eq!(parse_gain("1e-3"), Some(0));
    assert_eq!(parse_gain("5e-3"), Some(1));
    assert_eq!(parse_gain("1e-1180591620717411303424"), Some(0));
    assert_eq!(parse_gain("1e-1180591620717411303425"), Some(0));
    assert_eq!(parse_gain("9e-99999999999999999999999999999999999999999999"), Some(0));
    assert_eq!(parse_gain("1e1180591620717411303424"), Some(100));
    assert_eq!(parse_gain("1e99999999999999999999999999999999999999999999"), Some(100));
    assert_eq!(parse_gain("0e99999999999999999999999999999999999999999999"), Some(0));
    assert_eq!(parse_gain("0.0e99999999999999999999999999999999999999999999"), Some(0));
    let mut small = String::from("0.");
    for _ in 0..1000 {
        small.push('0');
    }
    small.push_str("45e1000");
    assert_eq!(parse_gain(&small), Some(45));
    let mut large = String::from("45");
    for _ in 0..1000 {
        large.push('0');
    }
    large.push_str("e-1002");
    assert_eq!(parse_gain(&large), Some(45));
}

#[test]
fn texts_that_are_no_gains() {
    for token in [
        "", ".", "+", "-", "+.", "-.", "e", "e5", ".e5", "1e", "1e+", "1e-", "1e5.", "1e5e5", "1e.5",
        "1.2.3", "1..2", "--1", "+-1", "1+", "1-", "0x10", "1,5", "1_000", " 1", "1 ", "1%", "inf",
        "+inf", "-inf", "infinity", "nan", "NaN", "Volume:", "[MUTED]", "٠.٤٥", "0.4５",
    ] {
        assert_eq!(parse_gain(token), None, "{token:?}");
    }
}

#[test]
fn numbers_in_decimal() {
    assert_eq!(render_decimal(0), "0");
    assert_eq!(render_decimal(7), "7");
    assert_eq!(render_decimal(10), "10");
    assert_eq!(render_decimal(100), "100");
    assert_eq!(render_decimal(1009), "1009");
    assert_eq!(render_decimal(u32::MAX), "4294967295");
    for n in [0u32, 1, 9, 10, 11, 99, 100, 101, 999, 1000, 65535, 65536, 2147483647, 2147483648] {
        assert_eq!(render_decimal(n), n.to_string());
    }
}

/// The percentage of `digits × 10^exponent`, in floating point, unless a
/// hundred times the number lies too close to a half for floating point to
/// round it reliably.
fn float_percent(token: &str) -> Option<u8> {
    let value: f64 = token.parse().ok()?;
    let scaled = value * 100.0;
    let distance = (scaled - scaled.floor() - 0.5).abs();
    if distance < 1e-6 {
        return None;
    }
    Some(scaled.round().clamp(0.0, 100.0) as u8)
}

#[test]
fn agrees_with_floating_point_away_from_halves() {
    let mut seed: u64 = 0x2545_f491_4f6c_dd1d;
    let mut next = move |bound: u64| {
        seed = seed.wrapping_mul(6364136223846793005).wrapping_add(1442695040888963407);
        (seed >> 33) % bound
    };
    let mut compared = 0;
    for _ in 0..20000 {
        let whole = next(3);
        let fraction_len = next(7) as usize;
        let fraction = next(10u64.pow(fraction_len as u32));
        let exponent = next(9) as i64 - 4;
        let mut token = String::new();
        if next(4) == 0 {
            token.push(if next(2) == 0 { '+' } else { '-' });
        }
        token.push_str(&whole.to_string());
        if fraction_len > 0 {
            token.push('.');
            token.push_str(&format!("{:0width$}", fraction, width = fraction_len));
        }
        if exponent != 0 || next(2) == 0 {
            token.push(if next(2) == 0 { 'e' } else { 'E' });
            token.push_str(&exponent.to_string());
        }
        if let Some(expected) = float_percent(&token) {
            assert_eq!(parse_gain(&token), Some(expected), "{token}");
            compared += 1;
        }
    }
    assert!(compared > 15000);
}
