use bunkr_dl::size::format_size;

fn in_double_precision(bytes: u64) -> String {
    let units = ["B", "KB", "MB", "GB", "TB"];
    let mut size = bytes as f64;
    for unit in units.iter() {
        if size < 1024.0 || *unit == "TB" {
            return format!("{:.2} {}", size, unit);
        }
        size /= 1024.0;
    }
    format!("{:.2} TB", size)
}

#[test]
fn sizes_of_each_unit() {
    assert_eq!(format_size(0), "0.00 B");
    assert_eq!(format_size(1), "1.00 B");
    assert_eq!(format_size(1023), "1023.00 B");
    assert_eq!(format_size(1024), "1.00 KB");
    assert_eq!(format_size(1536), "1.50 KB");
    assert_eq!(format_size(1_048_575), "1024.00 KB");
    assert_eq!(format_size(1_048_576), "1.00 MB");
    assert_eq!(format_size(1_073_741_824), "1.00 GB");
    assert_eq!(format_size(1_099_511_627_776), "1.00 TB");
    assert_eq!(format_size(1_125_899_906_842_624), "1024.00 TB");
    assert_eq!(format_size(u64::MAX), "16777216.00 TB");
}

#[test]
fn ties_go_to_the_even_digit() {
    assert_eq!(format_size(1024 + 128), "1.12 KB");
    assert_eq!(format_size(1024 + 384), "1.38 KB");
    assert_eq!(format_size(1024 + 640), "1.62 KB");
    assert_eq!(format_size(1024 + 896), "1.88 KB");
}

#[test]
fn large_counts_lose_precision_first() {
    let tie = (1u64 << 63) + (1u64 << 37);
    assert_eq!(format_size(tie), "8388608.12 TB");
    assert_eq!(format_size(tie + 1), "8388608.12 TB");
    assert_eq!(format_size(tie + 1025), "8388608.13 TB");
}

#[test]
fn small_sizes_are_exact() {
    for n in 0..1024u64 {
        assert_eq!(format_size(n), format!("{}.00 B", n));
    }
}

#[test]
fn shown_size_agrees_with_double_precision() {
    let mut samples: Vec<u64> = Vec::new();
    for shift in 0..64u32 {
        let base = 1u64 << shift;
        for delta in 0..40u64 {
            samples.push(base.wrapping_add(delta));
            samples.push(base.wrapping_sub(delta));
            samples.push(base.wrapping_add(base / 8).wrapping_add(delta));
            samples.push(base.wrapping_add(base / 16 * 3).wrapping_sub(delta));
        }
    }
    let mut x: u64 = 88172645463325252;
    for _ in 0..200_000u32 {
        x ^= x << 13;
        x ^= x >> 7;
        x ^= x << 17;
        samples.push(x);
        samples.push(x >> (x % 64));
    }
    for n in 0..3_000_000u64 {
        samples.push(n);
    }
    for n in samples {
        assert_eq!(format_size(n), in_double_precision(n), "{}", n);
    }
}

#[test]
fn sizes_keep_their_order() {
    let unit = |text: &str| {
        let name = text.rsplit(' ').next().unwrap().to_string();
        ["B", "KB", "MB", "GB", "TB"].iter().position(|u| *u == name).unwrap()
    };
    let number = |text: &str| text.split(' ').next().unwrap().parse::<f64>().unwrap();
    let mut counts: Vec<u64> = vec![u64::MAX, u64::MAX - 1, (1 << 53) + 1, (1 << 54) + 3];
    for shift in 0..64u32 {
        let power = 1u64 << shift;
        for delta in 0..4u64 {
            counts.push(power.saturating_add(delta));
            counts.push(power.saturating_sub(delta));
            counts.push(power / 3 * 5 + delta);
        }
    }
    counts.sort();
    for pair in counts.windows(2) {
        let (small, large) = (format_size(pair[0]), format_size(pair[1]));
        assert!(unit(&small) <= unit(&large));
        if unit(&small) == unit(&large) {
            assert!(number(&small) <= number(&large), "{} {}", small, large);
        }
    }
    assert_eq!(format_size(1048575), "1024.00 KB");
    assert_eq!(format_size(1048576), "1.00 MB");
}
