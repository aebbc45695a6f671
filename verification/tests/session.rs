use torii::notice::{cleared_notice, notice, portal_notice};
use torii::session::{check_wait, mode, once_opens, Backoff, Mode};

#[test]
fn the_first_argument_decides() {
    for terminal in [false, true] {
        assert_eq!(mode("-v", terminal), Mode::Version);
        assert_eq!(mode("--version", terminal), Mode::Version);
        assert_eq!(mode("-h", terminal), Mode::Help);
        assert_eq!(mode("--help", terminal), Mode::Help);
        assert_eq!(mode("--once", terminal), Mode::Once);
        assert_eq!(mode("--daemon", terminal), Mode::Listen);
        assert_eq!(mode("anything", terminal), Mode::Listen);
    }
    assert_eq!(mode("", true), Mode::View);
    assert_eq!(mode("", false), Mode::Listen);
}

#[test]
fn a_single_check_opens_at_a_portal_only() {
    assert!(once_opens(Some(2)));
    assert!(!once_opens(Some(4)));
    assert!(!once_opens(None));
}

#[test]
fn a_new_connection_is_checked_twice_at_most() {
    assert_eq!(check_wait(0, None), Some(3));
    for settling in [0, 1, 3, 9] {
        assert_eq!(check_wait(1, Some(settling)), Some(12));
    }
    assert_eq!(check_wait(1, Some(2)), None);
    assert_eq!(check_wait(1, Some(4)), None);
    assert_eq!(check_wait(1, None), None);
    assert_eq!(check_wait(2, Some(1)), None);
}

#[test]
fn waits_double_up_to_a_minute() {
    let mut b = Backoff::new();
    let waits: Vec<u64> = (0..7).map(|_| b.wait(false)).collect();
    assert_eq!(waits, vec![5, 10, 20, 40, 60, 60, 60]);
    assert_eq!(b.wait(true), 5);
    assert_eq!(b.wait(true), 5);
    assert_eq!(b.wait(false), 10);
    assert_eq!(b.wait(false), 20);
}

#[test]
fn a_critical_notice_stays() {
    let n = portal_notice();
    assert_eq!((n.summary.as_str(), n.body.as_str(), n.urgency, n.timeout), ("Captive portal", "Opening login page…", 2, 0));
    let n = cleared_notice();
    assert_eq!((n.summary.as_str(), n.body.as_str(), n.urgency, n.timeout), ("Connected", "Internet reachable", 0, 4000));
    assert_eq!(notice("a", "b", 1).timeout, 4000);
    assert_eq!(notice("a", "b", 3).timeout, 4000);
}
