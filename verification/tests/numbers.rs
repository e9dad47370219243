use maki_ui::numbers::{context_percent, format_tokens, push_decimal};

fn reference_tokens(n: u32) -> String {
    match n {
        0..1_000 => n.to_string(),
        1_000..1_000_000 => format!("{:.1}k", n as f64 / 1_000.0),
        _ => format!("{:.1}m", n as f64 / 1_000_000.0),
    }
}

fn reference_percent(size: u32, window: u32) -> u32 {
    if window > 0 {
        (size as f64 / window as f64 * 100.0) as u32
    } else {
        0
    }
}

#[test]
fn format_tokens_display_999() {
    assert_eq!(format_tokens(999), "999");
}

#[test]
fn format_tokens_display_1000() {
    assert_eq!(format_tokens(1_000), "1.0k");
}

#[test]
fn format_tokens_display_12345() {
    assert_eq!(format_tokens(12_345), "12.3k");
}

#[test]
fn format_tokens_display_999999() {
    assert_eq!(format_tokens(999_999), "1000.0k");
}

#[test]
fn format_tokens_display_1000000() {
    assert_eq!(format_tokens(1_000_000), "1.0m");
}

#[test]
fn format_tokens_display_1500000() {
    assert_eq!(format_tokens(1_500_000), "1.5m");
}

#[test]
fn format_tokens_small_numbers() {
    assert_eq!(format_tokens(0), "0");
    assert_eq!(format_tokens(7), "7");
    assert_eq!(format_tokens(42), "42");
}

#[test]
fn format_tokens_ties_follow_binary64() {
    // 1.25 is exact in binary and rounds to even; 1.05 lies just above 1.05.
    assert_eq!(format_tokens(1_250), "1.2k");
    assert_eq!(format_tokens(1_050), "1.1k");
    assert_eq!(format_tokens(1_350), reference_tokens(1_350));
    assert_eq!(format_tokens(u32::MAX), "4295.0m");
}

#[test]
fn format_tokens_matches_binary64_thousands() {
    let mut n: u32 = 0;
    while n < 1_000_000 {
        assert_eq!(format_tokens(n), reference_tokens(n), "n = {n}");
        n += if n % 100 == 50 { 1 } else { 7 };
    }
    for tie in (1_050..1_000_000u32).step_by(100) {
        assert_eq!(format_tokens(tie), reference_tokens(tie), "n = {tie}");
    }
}

#[test]
fn format_tokens_matches_binary64_millions() {
    let mut n: u64 = 1_000_000;
    while n <= u32::MAX as u64 {
        let v = n as u32;
        assert_eq!(format_tokens(v), reference_tokens(v), "n = {v}");
        n += 104_729;
    }
    for tie in (1_050_000..u32::MAX).step_by(100_000) {
        assert_eq!(format_tokens(tie), reference_tokens(tie), "n = {tie}");
    }
}

#[test]
fn context_percent_examples() {
    assert_eq!(context_percent(0, 0), 0);
    assert_eq!(context_percent(10, 0), 0);
    assert_eq!(context_percent(0, 100), 0);
    assert_eq!(context_percent(50, 100), 50);
    // 0.29 * 100 is 28.999999999999996 in binary64.
    assert_eq!(context_percent(29, 100), 28);
    assert_eq!(context_percent(200, 100), 200);
    assert_eq!(context_percent(u32::MAX, 1), u32::MAX);
}

#[test]
fn context_percent_matches_binary64() {
    let mut state: u64 = 0x2545_f491_4f6c_dd1d;
    for _ in 0..200_000 {
        state ^= state << 13;
        state ^= state >> 7;
        state ^= state << 17;
        let window = (state >> 40) as u32 % 2_000_000;
        let size = (state & 0xffff_ffff) as u32 % (window.max(1) * 3);
        assert_eq!(context_percent(size, window), reference_percent(size, window), "{size}/{window}");
    }
    for window in 1..300u32 {
        for size in 0..=window * 2 {
            assert_eq!(context_percent(size, window), reference_percent(size, window), "{size}/{window}");
        }
    }
}

#[test]
fn push_decimal_writes_digits() {
    let mut s = String::from("n=");
    push_decimal(&mut s, 0);
    assert_eq!(s, "n=0");
    let mut s = String::new();
    push_decimal(&mut s, u128::MAX);
    assert_eq!(s, u128::MAX.to_string());
}

#[test]
fn whole_units_show_point_zero() {
    assert_eq!(format_tokens(42_000), "42.0k");
    assert_eq!(format_tokens(999_000), "999.0k");
    assert_eq!(format_tokens(7_000_000), "7.0m");
    assert_eq!(format_tokens(4_294_000_000), "4294.0m");
}

#[test]
fn context_percent_rounds_down() {
    assert_eq!(context_percent(1, 3), 33);
    assert_eq!(context_percent(2, 3), 66);
    assert_eq!(context_percent(999, 1000), 99);
    assert_eq!(context_percent(7, 7), 100);
}
