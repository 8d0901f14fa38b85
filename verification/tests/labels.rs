use ruix_dashboard::labels::{cpu_card_footers, cpu_info_label, memory_card_footers, net_total_rate, network_card_texts, system_info_line1, system_info_line2, usage_label};

#[test]
fn usage_text() {
    assert_eq!(usage_label(512 * 1048576, 2 * 1073741824), "512 MB / 2.0 GB");
    assert_eq!(usage_label(0, 0), "0 B / 0 B");
}

#[test]
fn cpu_texts() {
    assert_eq!(cpu_info_label(8, 3200), "8 cores  |  3200 MHz");
    let (l, r) = cpu_card_footers(16, 0);
    assert_eq!(l, "16 cores");
    assert_eq!(r, "0 MHz");
}

#[test]
fn memory_footers() {
    let (l, r) = memory_card_footers(16 * 1073741824, 0);
    assert_eq!(l, "16.0 GB total");
    assert_eq!(r, "Swap: 0 B");
}

#[test]
fn network_texts() {
    assert_eq!(net_total_rate(1024, 2048), 3072);
    let (v, rx, tx) = network_card_texts(1048576, 512);
    assert_eq!(v, "1.0 MB/s");
    assert_eq!(rx, "RX: 1.0 MB/s");
    assert_eq!(tx, "TX: 512 B/s");
}

#[test]
fn system_info_lines() {
    assert_eq!(
        system_info_line1("Linux 6.8", "Ryzen 7", 34359738368),
        "OS: Linux 6.8  |  CPU: Ryzen 7  |  RAM: 32.0 GB"
    );
    assert_eq!(system_info_line2(90061, 312), "Uptime: 1d 1h 1m  |  Processes: 312");
}
