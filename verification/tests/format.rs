use ruix_dashboard::data::{format_bytes, format_throughput, format_uptime};
use ruix_dashboard::decimal::decimal;

// The float formatting the dashboard text is defined by.
fn float_bytes(bytes: u64) -> String {
    const KB: u64 = 1024;
    const MB: u64 = 1024 * KB;
    const GB: u64 = 1024 * MB;
    if bytes >= GB {
        format!("{:.1} GB", bytes as f64 / GB as f64)
    } else if bytes >= MB {
        format!("{:.0} MB", bytes as f64 / MB as f64)
    } else if bytes >= KB {
        format!("{:.0} KB", bytes as f64 / KB as f64)
    } else {
        format!("{bytes} B")
    }
}

fn float_throughput(bps: u64) -> String {
    const KB: u64 = 1024;
    const MB: u64 = 1024 * KB;
    if bps >= MB {
        format!("{:.1} MB/s", bps as f64 / MB as f64)
    } else if bps >= KB {
        format!("{:.0} KB/s", bps as f64 / KB as f64)
    } else {
        format!("{bps} B/s")
    }
}

fn sample_values() -> Vec<u64> {
    let mut v = Vec::new();
    for b in 0..5000u64 {
        v.push(b);
    }
    let bases = [1u64 << 10, 1u64 << 20, 1u64 << 30, 1u64 << 40, 1u64 << 53, 1u64 << 60, 1u64 << 63];
    for &base in bases.iter() {
        for k in 0..64u64 {
            // near multiples of half a step and of a tenth of a step
            for d in [0u64, 1, 2, 3] {
                let x = base.wrapping_mul(k) / 20;
                v.push(x.wrapping_add(d));
                v.push(x.wrapping_sub(d));
                let y = base / 10 * k + base / 20;
                v.push(y.wrapping_add(d));
                v.push(y.wrapping_sub(d));
            }
        }
    }
    v.push(u64::MAX);
    v.push(u64::MAX - 1);
    v.push((1u64 << 53) - 1);
    v.push((1u64 << 53) + 1);
    v.push((1u64 << 54) + 2);
    v.push((1u64 << 54) + 6);
    v.push(5 << 28);
    v.push(25 << 28);
    v.push(3 << 19);
    v.push(5 << 19);
    v.push(3 << 9);
    v.push(5 << 9);
    let mut x: u64 = 0x9E37_79B9_7F4A_7C15;
    for _ in 0..20000 {
        x ^= x << 13;
        x ^= x >> 7;
        x ^= x << 17;
        v.push(x);
        v.push(x >> (x % 64));
    }
    v
}

#[test]
fn format_bytes_matches_float_formatting() {
    for b in sample_values() {
        assert_eq!(format_bytes(b), float_bytes(b), "bytes = {b}");
    }
}

#[test]
fn format_throughput_matches_float_formatting() {
    for b in sample_values() {
        assert_eq!(format_throughput(b), float_throughput(b), "bps = {b}");
    }
}

#[test]
fn format_bytes_examples() {
    assert_eq!(format_bytes(0), "0 B");
    assert_eq!(format_bytes(1023), "1023 B");
    assert_eq!(format_bytes(1024), "1 KB");
    assert_eq!(format_bytes(1536), "2 KB");
    assert_eq!(format_bytes(2560), "2 KB");
    assert_eq!(format_bytes(1048575), "1024 KB");
    assert_eq!(format_bytes(1048576), "1 MB");
    assert_eq!(format_bytes(524288000), "500 MB");
    assert_eq!(format_bytes(1073741824), "1.0 GB");
    assert_eq!(format_bytes(1610612736), "1.5 GB");
    assert_eq!(format_bytes(5 << 28), "1.2 GB");
    assert_eq!(format_bytes(16 * 1073741824), "16.0 GB");
    assert_eq!(format_bytes(u64::MAX), "17179869184.0 GB");
}

#[test]
fn format_throughput_examples() {
    assert_eq!(format_throughput(0), "0 B/s");
    assert_eq!(format_throughput(900), "900 B/s");
    assert_eq!(format_throughput(1024), "1 KB/s");
    assert_eq!(format_throughput(12 * 1024), "12 KB/s");
    assert_eq!(format_throughput(1048576), "1.0 MB/s");
    assert_eq!(format_throughput(3565158), "3.4 MB/s");
}

#[test]
fn format_uptime_examples() {
    assert_eq!(format_uptime(0), "0m");
    assert_eq!(format_uptime(59), "0m");
    assert_eq!(format_uptime(60), "1m");
    assert_eq!(format_uptime(3599), "59m");
    assert_eq!(format_uptime(3600), "1h 0m");
    assert_eq!(format_uptime(4 * 3600 + 5 * 60 + 7), "4h 5m");
    assert_eq!(format_uptime(86400), "1d 0h 0m");
    assert_eq!(format_uptime(3 * 86400 + 4 * 3600 + 5 * 60), "3d 4h 5m");
    assert_eq!(format_uptime(u64::MAX), "213503982334601d 7h 0m");
}

#[test]
fn format_uptime_matches_integer_formatting() {
    for s in sample_values() {
        let days = s / 86400;
        let hours = (s % 86400) / 3600;
        let mins = (s % 3600) / 60;
        let expected = if days > 0 {
            format!("{days}d {hours}h {mins}m")
        } else if hours > 0 {
            format!("{hours}h {mins}m")
        } else {
            format!("{mins}m")
        };
        assert_eq!(format_uptime(s), expected);
    }
}

#[test]
fn decimal_matches_to_string() {
    for n in sample_values() {
        assert_eq!(decimal(n), n.to_string());
    }
    assert_eq!(decimal(0), "0");
    assert_eq!(decimal(10), "10");
}
