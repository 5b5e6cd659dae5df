use kosmos_downloader::ui::format::{format_percent, to_significant, DOUBLE_LIMIT, SINGLE_LIMIT};
use kosmos_downloader::ui::{format_bytes, format_eta, format_speed};

#[test]
fn test_format_bytes() {
    assert_eq!(format_bytes(0), "0 B");
    assert_eq!(format_bytes(512), "512 B");
    assert_eq!(format_bytes(1024), "1.0 KB");
    assert_eq!(format_bytes(1048576), "1.00 MB");
    assert_eq!(format_bytes(1073741824), "1.00 GB");
}

#[test]
fn test_format_eta() {
    assert_eq!(format_eta(None), "--:--");
    assert_eq!(format_eta(Some(12)), "12s");
    assert_eq!(format_eta(Some(75)), "1m 15s");
    assert_eq!(format_eta(Some(3665)), "1h 1m");
}

/// Numbers around powers of two and a spread of others.
fn samples() -> Vec<u64> {
    let mut numbers = vec![0, 1, 2, 3, 5, 7, 10, 99, 100, 1000, u64::MAX];
    for shift in 3..64 {
        let power = 1u64 << shift;
        numbers.extend([power - 1, power, power + 1, power + power / 3]);
    }
    let mut state: u64 = 0x9e37_79b9_7f4a_7c15;
    for index in 0..400 {
        state = state.wrapping_mul(6364136223846793005).wrapping_add(1442695040888963407);
        numbers.push(state >> (index % 60));
    }
    numbers
}

#[test]
fn sizes_are_rounded_as_floating_point_numbers_are() {
    for bytes in samples() {
        let expected = if bytes >= 1_073_741_824 {
            format!("{:.2} GB", bytes as f64 / 1_073_741_824.0)
        } else if bytes >= 1_048_576 {
            format!("{:.2} MB", bytes as f64 / 1_048_576.0)
        } else if bytes >= 1024 {
            format!("{:.1} KB", bytes as f64 / 1024.0)
        } else {
            format!("{bytes} B")
        };
        assert_eq!(format_bytes(bytes), expected, "{bytes}");
    }
    assert_eq!(format_speed(0), "0 KB/s");
    assert_eq!(format_speed(1536), "1.5 KB/s");
}

#[test]
fn significant_digits_are_those_of_floating_point_numbers() {
    for number in samples() {
        assert_eq!(to_significant(number, SINGLE_LIMIT), number as f32 as u128, "{number}");
        assert_eq!(to_significant(number, DOUBLE_LIMIT), number as f64 as u128, "{number}");
    }
}

#[test]
fn shares_are_rounded_as_floating_point_numbers_are() {
    let numbers = samples();
    for (index, total) in numbers.iter().enumerate() {
        if *total == 0 {
            continue;
        }
        for step in 1..40 {
            let downloaded = numbers[(index * 7 + step * 13) % numbers.len()];
            let progress = (downloaded as f32 / *total as f32).clamp(0.0, 1.0);
            assert_eq!(
                format_percent(downloaded, *total),
                format!("{:.1}", progress * 100.0),
                "{downloaded} of {total}"
            );
        }
    }
}
