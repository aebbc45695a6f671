use torii::connectivity::conn_name;
use torii::monitor::{Change, Monitor, Page, Reaction, NM_IFACE};

fn change(state: Option<u32>, connectivity: Option<u32>) -> Change<String> {
    Change { iface: NM_IFACE.to_string(), state, connectivity }
}

#[test]
fn connectivity_has_names() {
    assert_eq!([0, 1, 2, 3, 4, 5, u32::MAX].map(conn_name), ["unknown", "none", "portal", "limited", "full", "?", "?"]);
}

#[test]
fn what_cannot_be_read_counts_as_nothing() {
    assert_eq!(Monitor::start(None, None), Monitor { connectivity: 0, state: 0 });
    assert_eq!(Monitor::start(Some(4), Some(70)), Monitor { connectivity: 4, state: 70 });
}

#[test]
fn every_turn_to_a_portal_opens_the_page_once() {
    for before in [0, 1, 3, 4] {
        let mut m = Monitor::start(Some(before), Some(70));
        assert_eq!(m.react(&change(None, Some(2))).page, Page::Open);
        assert_eq!(m.react(&change(None, Some(2))).page, Page::Leave);
        assert_eq!(m.react(&change(None, None)).page, Page::Leave);
        assert_eq!(m.react(&change(None, Some(1))).page, Page::Leave);
        assert_eq!(m.react(&change(None, Some(2))).page, Page::Open);
    }
    let mut m = Monitor::start(Some(2), Some(70));
    assert_eq!(m.react(&change(None, Some(2))).page, Page::Leave);
}

#[test]
fn only_a_portal_that_turns_to_the_internet_is_cleared() {
    for (before, after, page) in [(2, 4, Page::Cleared), (2, 3, Page::Leave), (2, 1, Page::Leave), (2, 0, Page::Leave), (1, 4, Page::Leave), (4, 1, Page::Leave), (2, 9, Page::Leave)] {
        let mut m = Monitor::start(Some(before), Some(70));
        assert_eq!(m.react(&change(None, Some(after))).page, page);
        assert_eq!(m, Monitor { connectivity: after, state: 70 });
    }
}

#[test]
fn a_connection_that_comes_up_is_checked() {
    let mut m = Monitor::start(Some(1), Some(20));
    assert!(!m.react(&change(Some(49), None)).check_soon);
    assert!(m.react(&change(Some(50), None)).check_soon);
    assert!(!m.react(&change(Some(70), None)).check_soon);
    assert!(!m.react(&change(None, Some(4))).check_soon);
    assert!(!m.react(&change(Some(20), None)).check_soon);
    assert_eq!(m.react(&change(Some(60), Some(2))), Reaction { check_soon: true, page: Page::Open });
}

#[test]
fn other_interfaces_do_not_matter() {
    let mut m = Monitor::start(Some(1), Some(20));
    let other = Change { iface: "org.freedesktop.NetworkManager.Device".to_string(), state: Some(70), connectivity: Some(2) };
    assert_eq!(m.react(&other), Reaction { check_soon: false, page: Page::Leave });
    assert_eq!(m, Monitor { connectivity: 1, state: 20 });
}
