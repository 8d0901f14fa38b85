use ruix_dashboard::history::{MetricsHistory, HISTORY_LEN};

#[test]
fn new_history_is_empty() {
    let h: MetricsHistory<f32> = MetricsHistory::new();
    assert!(h.cpu_total.is_empty());
    assert!(h.mem_percent.is_empty());
    assert_eq!(h.net_rx_rate, 0);
    assert_eq!(h.net_tx_rate, 0);
}

#[test]
fn keeps_newest_sixty_samples() {
    let mut h: MetricsHistory<u64> = MetricsHistory::new();
    for k in 0..150u64 {
        h.push(k, 1000 + k, 0, 0);
        assert!(h.cpu_total.len() <= HISTORY_LEN);
        assert_eq!(*h.cpu_total.back().unwrap(), k);
    }
    assert_eq!(HISTORY_LEN, 60);
    assert_eq!(h.cpu_total.len(), 60);
    let cpu: Vec<u64> = h.cpu_total.iter().copied().collect();
    let expected: Vec<u64> = (90..150).collect();
    assert_eq!(cpu, expected);
    let mem: Vec<u64> = h.mem_percent.iter().copied().collect();
    let expected_mem: Vec<u64> = (1090..1150).collect();
    assert_eq!(mem, expected_mem);
}

#[test]
fn short_history_keeps_everything() {
    let mut h: MetricsHistory<f32> = MetricsHistory::new();
    h.push(12.5, 40.0, 0, 0);
    h.push(13.5, 41.0, 0, 0);
    assert_eq!(h.cpu_total.iter().copied().collect::<Vec<f32>>(), vec![12.5, 13.5]);
    assert_eq!(h.mem_percent.iter().copied().collect::<Vec<f32>>(), vec![40.0, 41.0]);
}

#[test]
fn rates_are_deltas_of_raw_totals() {
    let mut h: MetricsHistory<u8> = MetricsHistory::new();
    h.push(0, 0, 1000, 500);
    // first sample: nothing to compare with yet
    assert_eq!(h.net_rx_rate, 0);
    assert_eq!(h.net_tx_rate, 0);
    h.push(0, 0, 1500, 800);
    assert_eq!(h.net_rx_rate, 500);
    assert_eq!(h.net_tx_rate, 300);
    h.push(0, 0, 1500, 800);
    assert_eq!(h.net_rx_rate, 0);
    assert_eq!(h.net_tx_rate, 0);
}

#[test]
fn counter_reset_saturates_to_zero() {
    let mut h: MetricsHistory<u8> = MetricsHistory::new();
    h.push(0, 0, 5000, 5000);
    h.push(0, 0, 100, 7000);
    assert_eq!(h.net_rx_rate, 0);
    assert_eq!(h.net_tx_rate, 2000);
}

#[test]
fn rates_wait_for_a_nonzero_received_total() {
    let mut h: MetricsHistory<u8> = MetricsHistory::new();
    h.push(0, 0, 0, 100);
    h.push(0, 0, 0, 900);
    // the received total never left zero, so no rate was taken
    assert_eq!(h.net_rx_rate, 0);
    assert_eq!(h.net_tx_rate, 0);
    h.push(0, 0, 10, 1000);
    assert_eq!(h.net_tx_rate, 0);
    h.push(0, 0, 30, 1400);
    assert_eq!(h.net_rx_rate, 20);
    assert_eq!(h.net_tx_rate, 400);
}
