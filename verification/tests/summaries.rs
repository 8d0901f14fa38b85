use ruix_dashboard::data::{summarize_disks, sum_counters, DiskMetric, DiskSample, MAX_LISTED_DISKS};

fn sample(name: &str, mount: &str, total: u64, avail: u64) -> DiskSample {
    DiskSample {
        name: name.to_string(),
        mount_point: mount.to_string(),
        total_space: total,
        available_space: avail,
    }
}

#[test]
fn aggregates_all_disks() {
    let samples = vec![sample("sda1", "/", 1000, 400), sample("sdb1", "/data", 5000, 1000)];
    let s = summarize_disks(&samples);
    assert_eq!(s.total_bytes, 6000);
    assert_eq!(s.used_bytes, 4600);
    assert_eq!(s.disks.len(), 2);
    assert_eq!(s.disks[0].name, "sda1");
    assert_eq!(s.disks[0].mount_point, "/");
    assert_eq!(s.disks[0].total_bytes, 1000);
    assert_eq!(s.disks[0].used_bytes, 600);
    assert_eq!(s.disks[1].used_bytes, 4000);
}

#[test]
fn more_free_than_capacity_counts_as_unused() {
    let samples = vec![sample("odd", "/odd", 100, 150)];
    let s = summarize_disks(&samples);
    assert_eq!(s.used_bytes, 0);
    assert_eq!(s.disks[0].used_bytes, 0);
}

#[test]
fn lists_at_most_eight_but_sums_all() {
    let mut samples = Vec::new();
    for i in 0..12u64 {
        samples.push(sample(&format!("d{i}"), &format!("/m{i}"), 100 * (i + 1), 10));
    }
    let s = summarize_disks(&samples);
    assert_eq!(MAX_LISTED_DISKS, 8);
    assert_eq!(s.disks.len(), 8);
    assert_eq!(s.disks[7].name, "d7");
    assert_eq!(s.total_bytes, 100 * 78);
    assert_eq!(s.used_bytes, 100 * 78 - 120);
}

#[test]
fn no_disks() {
    let s = summarize_disks(&Vec::new());
    assert_eq!(s.total_bytes, 0);
    assert_eq!(s.used_bytes, 0);
    assert!(s.disks.is_empty());
}

#[test]
fn counters_sum() {
    assert_eq!(sum_counters(&vec![]), 0);
    assert_eq!(sum_counters(&vec![5, 7, 11]), 23);
    assert_eq!(sum_counters(&vec![u64::MAX - 1, 1]), u64::MAX);
}

#[test]
fn display_name_falls_back_to_mount_point() {
    let named = DiskMetric { name: "nvme0n1p2".to_string(), mount_point: "/".to_string(), total_bytes: 1, used_bytes: 0 };
    assert_eq!(named.display_name(), "nvme0n1p2");
    let unnamed = DiskMetric { name: String::new(), mount_point: "/boot".to_string(), total_bytes: 1, used_bytes: 0 };
    assert_eq!(unnamed.display_name(), "/boot");
}
