use ruix_dashboard::nav::NavState;
use ruix_dashboard::pages::Page;

#[test]
fn starts_on_overview_clean() {
    let nav = NavState::new();
    assert_eq!(nav.current(), Page::Overview);
    assert!(!nav.is_dirty());
}

#[test]
fn navigate_sets_current_and_dirty() {
    let mut nav = NavState::new();
    nav.navigate(Page::Memory);
    assert_eq!(nav.current(), Page::Memory);
    assert!(nav.is_dirty());
    // peeking does not clear
    assert!(nav.is_dirty());
}

#[test]
fn take_dirty_reports_once_per_change() {
    let mut nav = NavState::new();
    nav.navigate(Page::Cpu);
    assert!(nav.take_dirty());
    assert!(!nav.take_dirty());
    assert!(!nav.is_dirty());
    assert_eq!(nav.current(), Page::Cpu);
}

#[test]
fn navigate_to_same_page_is_not_a_change() {
    let mut nav = NavState::new();
    nav.navigate(Page::Overview);
    assert!(!nav.is_dirty());
    nav.navigate(Page::Disks);
    assert!(nav.take_dirty());
    nav.navigate(Page::Disks);
    assert!(!nav.take_dirty());
}

#[test]
fn pending_change_survives_going_back() {
    let mut nav = NavState::new();
    nav.navigate(Page::Network);
    nav.navigate(Page::Overview);
    assert_eq!(nav.current(), Page::Overview);
    assert!(nav.take_dirty());
}

#[test]
fn page_from_index_in_sidebar_order() {
    assert_eq!(Page::from_index(0), Page::Overview);
    assert_eq!(Page::from_index(1), Page::Cpu);
    assert_eq!(Page::from_index(2), Page::Memory);
    assert_eq!(Page::from_index(3), Page::Processes);
    assert_eq!(Page::from_index(4), Page::Network);
    assert_eq!(Page::from_index(5), Page::Disks);
    assert_eq!(Page::from_index(6), Page::Overview);
    assert_eq!(Page::from_index(255), Page::Overview);
    assert_eq!(Page::COUNT, 6);
}

#[test]
fn page_index_roundtrip() {
    for i in 0..Page::COUNT as u8 {
        assert_eq!(Page::from_index(i).index(), i);
    }
    for p in [Page::Overview, Page::Cpu, Page::Memory, Page::Processes, Page::Network, Page::Disks] {
        assert_eq!(Page::from_index(p.index()), p);
    }
    assert_eq!(Page::Disks.index(), 5);
}
