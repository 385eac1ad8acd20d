use precious::duration::{format_duration as choose_format, DurationFormat};
use precious::text::decimal_text;
use std::time::Duration;

fn format_duration(d: &Duration) -> String {
    let hundredths = (d.as_secs_f64() * 100.0).round() as u64;
    match choose_format(hundredths, d.as_nanos()) {
        DurationFormat::Text(text) => text,
        DurationFormat::Quotient { divisor, unit } => {
            format!("{:.2}{}", d.as_nanos() as f64 / divisor as f64, unit)
        }
    }
}

#[test]
fn format_duration_output() {
    let tests: Vec<(Duration, &'static str)> = vec![
        (Duration::new(0, 24), "24ns"),
        (Duration::new(0, 124), "124ns"),
        (Duration::new(0, 1_243), "1.24us"),
        (Duration::new(0, 12_443), "12.44us"),
        (Duration::new(0, 124_439), "124.44us"),
        (Duration::new(0, 1_244_392), "1.24ms"),
        (Duration::new(0, 12_443_924), "0.01s"),
        (Duration::new(0, 124_439_246), "0.12s"),
        (Duration::new(1, 1), "1.00s"),
        (Duration::new(1, 12), "1.00s"),
        (Duration::new(1, 124), "1.00s"),
        (Duration::new(1, 1_243), "1.00s"),
        (Duration::new(1, 12_443), "1.00s"),
        (Duration::new(1, 124_439), "1.00s"),
        (Duration::new(1, 1_244_392), "1.00s"),
        (Duration::new(1, 12_443_926), "1.01s"),
        (Duration::new(1, 124_439_267), "1.12s"),
        (Duration::new(59, 1), "59.00s"),
        (Duration::new(59, 1_000_000), "59.00s"),
        (Duration::new(59, 10_000_000), "59.01s"),
        (Duration::new(59, 90_000_000), "59.09s"),
        (Duration::new(59, 99_999_999), "59.10s"),
        (Duration::new(59, 100_000_000), "59.10s"),
        (Duration::new(59, 900_000_000), "59.90s"),
        (Duration::new(59, 990_000_000), "59.99s"),
        (Duration::new(59, 999_000_000), "1m 0.00s"),
        (Duration::new(59, 999_999_999), "1m 0.00s"),
        (Duration::new(60, 0), "1m 0.00s"),
        (Duration::new(60, 10_000_000), "1m 0.01s"),
        (Duration::new(60, 100_000_000), "1m 0.10s"),
        (Duration::new(60, 110_000_000), "1m 0.11s"),
        (Duration::new(60, 990_000_000), "1m 0.99s"),
        (Duration::new(60, 999_000_000), "1m 1.00s"),
        (Duration::new(61, 10_000_000), "1m 1.01s"),
        (Duration::new(61, 100_000_000), "1m 1.10s"),
        (Duration::new(61, 120_000_000), "1m 1.12s"),
        (Duration::new(61, 990_000_000), "1m 1.99s"),
        (Duration::new(61, 999_000_000), "1m 2.00s"),
        (Duration::new(120, 99_000_000), "2m 0.10s"),
        (Duration::new(120, 530_000_000), "2m 0.53s"),
        (Duration::new(120, 990_000_000), "2m 0.99s"),
        (Duration::new(152, 240_123_456), "2m 32.24s"),
    ];
    for (k, e) in tests {
        let f = format_duration(&k);
        assert_eq!(f, e, "{}s {}ns", k.as_secs(), k.as_nanos());
    }
}

#[test]
fn the_unit_changes_above_a_thousand() {
    assert_eq!(choose_format(0, 0), DurationFormat::Text("0ns".to_string()));
    assert_eq!(choose_format(0, 1_000), DurationFormat::Text("1000ns".to_string()));
    assert_eq!(choose_format(0, 1_001), DurationFormat::Quotient { divisor: 1_000, unit: "us" });
    assert_eq!(
        choose_format(0, 1_000_000),
        DurationFormat::Quotient { divisor: 1_000, unit: "us" }
    );
    assert_eq!(
        choose_format(0, 1_000_001),
        DurationFormat::Quotient { divisor: 1_000_000, unit: "ms" }
    );
    assert_eq!(choose_format(1, 10_000_000), DurationFormat::Text("0.01s".to_string()));
    assert_eq!(choose_format(5_999, 59_990_000_000), DurationFormat::Text("59.99s".to_string()));
}

#[test]
fn numbers_are_written_in_decimal() {
    for n in [0, 7, 10, 99, 100, 1_234_567_890, u64::MAX] {
        assert_eq!(decimal_text(n), n.to_string());
    }
}
