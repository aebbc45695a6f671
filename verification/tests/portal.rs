use torii::fetch::Fetch;
use torii::portal::{
    answer_event, browser_command, check_uri, is_connected, last_resort, login_page, portal_next, Browser,
    PortalAction, PortalEvent, PortalStage,
};

const REDIRECT: &str = "HTTP/1.1 302 Found\r\nLocation: /login\r\n\r\n";

fn run(events: Vec<PortalEvent<String>>) -> (PortalStage<String>, Vec<PortalAction<String>>) {
    let mut stage = PortalStage::State;
    let mut all = Vec::new();
    for event in events {
        let (next, actions) = portal_next(stage, event);
        stage = next;
        all.extend(actions);
    }
    (stage, all)
}

fn s(text: &str) -> String {
    text.to_string()
}

#[test]
fn fifty_and_up_is_connected() {
    assert!(!is_connected(None));
    assert!(!is_connected(Some(49)));
    assert!(is_connected(Some(50)));
    assert!(is_connected(Some(70)));
}

#[test]
fn only_a_plain_http_check_address_is_taken() {
    assert_eq!(check_uri(Some(s("http://nmcheck.gnome.org/x"))), "http://nmcheck.gnome.org/x");
    assert_eq!(check_uri(Some(s("https://nmcheck.gnome.org/x"))), "http://connectivity-check.ubuntu.com/");
    assert_eq!(check_uri(Some(s(""))), "http://connectivity-check.ubuntu.com/");
    assert_eq!(check_uri(None), "http://connectivity-check.ubuntu.com/");
}

#[test]
fn the_check_leads_to_a_page() {
    assert_eq!(login_page(true, REDIRECT, "http://x:81/"), Some(s("http://x:81/login")));
    assert_eq!(login_page(true, "HTTP/1.1 200 OK\r\n\r\n", "http://x/c"), Some(s("http://x/c")));
    assert_eq!(login_page(true, "SSH-2.0-x\r\n", "http://x/c"), Some(s("http://x/c")));
    assert_eq!(login_page(false, "cannot resolve x\n", "http://x/c"), None);
}

#[test]
fn only_a_check_that_was_not_sent_asks_the_gateway() {
    let probe = s("http://x/");
    let after = |fetch: &Fetch| portal_next(PortalStage::Answer { probe: probe.clone() }, answer_event("h", fetch)).0;
    for fetch in [Fetch::Unresolved, Fetch::Unconnected(s("refused")), Fetch::Unsent(s("302"))] {
        assert_eq!(after(&fetch), PortalStage::Gateway { probe: probe.clone() });
    }
    for fetch in [Fetch::Unanswered(s("3 s\nLocation: /x")), Fetch::Answered(vec![]), Fetch::Answered(b"HTTP/1.1 204".to_vec()), Fetch::Answered(vec![0xff])] {
        assert_eq!(after(&fetch), PortalStage::Browser { url: probe.clone(), browser: Browser::Gaze });
    }
    assert_eq!(
        answer_event("h", &Fetch::Unresolved),
        PortalEvent::Answer { sent: false, raw: s("cannot resolve h\n") }
    );
}

#[test]
fn the_gateway_is_the_last_resort() {
    assert_eq!(last_resort(Some(s("192.168.1.1")), s("http://x/")), "http://192.168.1.1/");
    assert_eq!(last_resort(None, s("http://x/")), "http://x/");
}

#[test]
fn a_redirect_opens_in_gaze_after_the_capture() {
    let (stage, actions) = run(vec![
        PortalEvent::State(Some(70)),
        PortalEvent::CheckUri(Some(s("http://c.example:81/x"))),
        PortalEvent::Answer { sent: true, raw: s(REDIRECT) },
    ]);
    let url = s("http://c.example:81/login");
    assert_eq!(
        actions,
        vec![
            PortalAction::Announce,
            PortalAction::ReadCheckUri,
            PortalAction::Fetch { host: s("c.example"), port: 81, path: s("/x") },
            PortalAction::SaveCapture { probe: s("http://c.example:81/x"), raw: Some(s(REDIRECT)) },
            PortalAction::Launch { browser: Browser::Gaze, url: url.clone() },
        ]
    );
    assert_eq!(stage, PortalStage::Browser { url, browser: Browser::Gaze });
}

#[test]
fn without_an_answer_the_gateway_opens() {
    let (stage, actions) = run(vec![
        PortalEvent::State(Some(50)),
        PortalEvent::CheckUri(None),
        PortalEvent::Answer { sent: false, raw: s("cannot resolve connectivity-check.ubuntu.com\n") },
        PortalEvent::Gateway(Some(s("10.0.0.1"))),
    ]);
    assert_eq!(actions[4], PortalAction::ReadGateway);
    assert_eq!(actions[5], PortalAction::Launch { browser: Browser::Gaze, url: s("http://10.0.0.1/") });
    assert_eq!(stage, PortalStage::Browser { url: s("http://10.0.0.1/"), browser: Browser::Gaze });
}

#[test]
fn an_address_that_does_not_split_is_not_fetched() {
    let probe = s("http://x:port/");
    let (stage, actions) = run(vec![PortalEvent::State(Some(50)), PortalEvent::CheckUri(Some(probe.clone()))]);
    assert_eq!(actions[2], PortalAction::SaveCapture { probe: probe.clone(), raw: None });
    assert_eq!(actions[3], PortalAction::ReadGateway);
    let (stage, actions) = portal_next(stage, PortalEvent::Gateway(None));
    assert_eq!(actions, vec![PortalAction::Launch { browser: Browser::Gaze, url: probe.clone() }]);
    assert_eq!(stage, PortalStage::Browser { url: probe, browser: Browser::Gaze });
}

#[test]
fn nothing_opens_when_disconnected() {
    for state in [None, Some(0), Some(49)] {
        let (stage, actions) = run(vec![
            PortalEvent::State(state),
            PortalEvent::CheckUri(None),
            PortalEvent::Answer { sent: true, raw: s(REDIRECT) },
            PortalEvent::Gateway(None),
            PortalEvent::Started(false),
        ]);
        assert_eq!(stage, PortalStage::Finished);
        assert_eq!(actions, vec![]);
    }
}

#[test]
fn firefox_stands_behind_gaze() {
    let url = s("http://x/");
    let at = |browser| PortalStage::Browser { url: url.clone(), browser };
    assert_eq!(portal_next(at(Browser::Gaze), PortalEvent::Started(true)), (PortalStage::Finished, vec![]));
    assert_eq!(
        portal_next(at(Browser::Gaze), PortalEvent::Started(false)),
        (at(Browser::Firefox), vec![PortalAction::Launch { browser: Browser::Firefox, url: url.clone() }])
    );
    assert_eq!(portal_next(at(Browser::Firefox), PortalEvent::Started(false)), (PortalStage::Finished, vec![]));
    assert_eq!(portal_next(at(Browser::Firefox), PortalEvent::Started(true)), (PortalStage::Finished, vec![]));
}

#[test]
fn an_event_out_of_turn_changes_nothing() {
    assert_eq!(portal_next(PortalStage::CheckUri, PortalEvent::Started(true)), (PortalStage::CheckUri, vec![]));
    assert_eq!(portal_next(PortalStage::Finished, PortalEvent::State(Some(70))), (PortalStage::Finished, vec![]));
    let waiting = PortalStage::Answer { probe: s("http://x/") };
    assert_eq!(portal_next(waiting, PortalEvent::Gateway(None)), (PortalStage::Answer { probe: s("http://x/") }, vec![]));
}

#[test]
fn the_browsers_open_tabs() {
    assert_eq!(browser_command(Browser::Gaze), ("gaze", vec![]));
    assert_eq!(browser_command(Browser::Firefox), ("firefox", vec!["--new-tab"]));
}

#[test]
fn the_handling_of_a_report_ends() {
    for (sent, raw) in [(false, "cannot send to x\n"), (true, "HTTP/1.1 200 OK"), (true, REDIRECT)] {
        for started in [false, true] {
            let mut stage = PortalStage::State;
            let mut event = Some(PortalEvent::State(Some(70)));
            let mut steps = 0;
            while let Some(happened) = event.take() {
                let (next, actions) = portal_next(stage, happened);
                stage = next;
                steps += 1;
                event = match actions.last() {
                    Some(PortalAction::ReadCheckUri) => Some(PortalEvent::CheckUri(None)),
                    Some(PortalAction::Fetch { .. }) => Some(PortalEvent::Answer { sent, raw: s(raw) }),
                    Some(PortalAction::ReadGateway) => Some(PortalEvent::Gateway(None)),
                    Some(PortalAction::Launch { .. }) => Some(PortalEvent::Started(started)),
                    _ => None,
                };
            }
            assert_eq!(stage, PortalStage::Finished);
            assert!(steps <= 6);
        }
    }
}
