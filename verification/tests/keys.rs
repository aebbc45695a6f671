use torii::keys::{view_next, ViewAction, ViewEvent, KEY_WAIT_MS};

fn key(k: &str) -> ViewEvent<String> {
    ViewEvent::Key(Some(k.to_string()))
}

fn draw(note: &str) -> ViewAction<String> {
    ViewAction::Draw { note: note.to_string() }
}

#[test]
fn q_and_escape_leave() {
    for on_bus in [false, true] {
        assert_eq!(view_next(on_bus, &key("q")), ViewAction::Leave);
        assert_eq!(view_next(on_bus, &key("ESC")), ViewAction::Leave);
        assert_eq!(view_next(on_bus, &key("x")), draw(""));
        assert_eq!(view_next(on_bus, &key("RESIZE")), draw(""));
        assert_eq!(view_next(on_bus, &ViewEvent::Key(None)), draw(""));
    }
    assert_eq!(KEY_WAIT_MS, 600_000);
}

#[test]
fn networkmanager_is_asked_where_it_can_be() {
    assert_eq!(view_next(true, &key("c")), ViewAction::Check { note: "asking NetworkManager to check…".to_string() });
    assert_eq!(view_next(true, &key("o")), ViewAction::ReadWayOut);
    assert_eq!(view_next(false, &key("c")), draw(""));
    assert_eq!(view_next(false, &key("o")), draw(""));
}

#[test]
fn a_check_is_told() {
    assert_eq!(view_next(true, &ViewEvent::Checked(Some(4))), draw("checked: the way out is full"));
    assert_eq!(view_next(true, &ViewEvent::Checked(None)), draw("the check did not answer"));
}

#[test]
fn the_page_opens_at_a_portal_only() {
    assert_eq!(view_next(true, &ViewEvent::WayOut(Some(2))), ViewAction::OpenPage { note: "opening the login page".to_string() });
    assert_eq!(view_next(true, &ViewEvent::WayOut(Some(3))), draw("no login page to open: the way out is limited"));
    assert_eq!(view_next(true, &ViewEvent::WayOut(None)), draw("NetworkManager did not answer"));
}
