use ruix_dashboard::ids;
use std::collections::HashSet;

#[test]
fn card_blocks() {
    assert_eq!(ids::card_base(0), 100);
    assert_eq!(ids::card_base(3), 130);
    assert_eq!(ids::card_base(2) + ids::CARD_VALUE, 124);
    assert_eq!(ids::card_base(9) + ids::CARD_FOOTER_RIGHT, 198);
}

#[test]
fn core_ids() {
    assert_eq!(ids::core_label(0), 310);
    assert_eq!(ids::core_track(0), 311);
    assert_eq!(ids::core_fill(0), 312);
    assert_eq!(ids::core_label(15), 355);
    assert_eq!(ids::core_fill(15), 357);
}

#[test]
fn process_row_ids() {
    assert_eq!(ids::proc_name(0), 410);
    assert_eq!(ids::proc_cpu(0), 411);
    assert_eq!(ids::proc_mem(0), 412);
    assert_eq!(ids::proc_name(4), 426);
    assert_eq!(ids::proc_mem(4), 428);
}

#[test]
fn overview_ids_are_unique() {
    let mut seen = HashSet::new();
    let fixed = [
        ids::ROOT, ids::HEADER, ids::BODY, ids::STATUS_BAR, ids::SIDEBAR, ids::HEADER_TITLE,
        ids::HEADER_CLOCK, ids::HEADER_HOSTNAME, ids::HEADER_LOGO, ids::STATUS_REFRESH,
        ids::STATUS_LAST_UPDATE, ids::STATUS_CONNECTED, ids::CONTENT, ids::CORE_SECTION,
        ids::CORE_TITLE, ids::PROC_SECTION, ids::PROC_TITLE, ids::PROC_HEADER_ROW,
        ids::SPARK_CPU_SECTION, ids::SPARK_MEM_SECTION, ids::SYSINFO_SECTION, ids::SYSINFO_TITLE,
        ids::SYSINFO_LINE1, ids::SYSINFO_LINE2,
    ];
    for id in fixed {
        assert!(seen.insert(id), "duplicate {id}");
    }
    for i in 0..6 {
        assert!(seen.insert(ids::NAV_ITEM_BASE + i));
        assert!(seen.insert(ids::NAV_TEXT_BASE + i));
    }
    for c in 0..4 {
        for off in 0..=8 {
            assert!(seen.insert(ids::card_base(c) + off));
        }
    }
    for core in 0..16 {
        assert!(seen.insert(ids::core_label(core)));
        assert!(seen.insert(ids::core_track(core)));
        assert!(seen.insert(ids::core_fill(core)));
    }
    for row in 0..5 {
        assert!(seen.insert(ids::proc_name(row)));
        assert!(seen.insert(ids::proc_cpu(row)));
        assert!(seen.insert(ids::proc_mem(row)));
    }
    for bar in 0..60 {
        assert!(seen.insert(ids::SPARK_CPU_BASE + bar));
        assert!(seen.insert(ids::SPARK_MEM_BASE + bar));
    }
}
