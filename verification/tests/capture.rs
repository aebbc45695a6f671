use torii::capture::{capture_path, capture_text, last_portal};

#[test]
fn a_capture_holds_the_answer() {
    assert_eq!(
        capture_text(1700000000, "http://x/", &Some("HTTP/1.1 200 OK\r\n".to_string())),
        "portal seen at 1700000000 (unix time)\n\n===== http://x/\nHTTP/1.1 200 OK\r\n"
    );
    assert_eq!(
        capture_text(0, "http://x:y/", &None),
        "portal seen at 0 (unix time)\n\n===== http://x:y/\nnot a plain-HTTP address\n"
    );
}

#[test]
fn a_capture_reads_back() {
    let raw = Some("===== no\n5 6 7 8".to_string());
    for (now, probe) in [(0u64, "http://a/"), (1700000000, ""), (u64::MAX, "é · x")] {
        let text = Some(capture_text(now, probe, &raw));
        assert_eq!(last_portal(&text, now), format!("0 s ago · {probe}"));
        if now < u64::MAX {
            assert_eq!(last_portal(&text, now + 61), format!("1 min ago · {probe}"));
        }
    }
    let two_lines = Some(capture_text(10, "a\nb", &None));
    assert_eq!(last_portal(&two_lines, 10), "0 s ago · a");
    let carriage = Some(capture_text(10, "a\r", &None));
    assert_eq!(last_portal(&carriage, 10), "0 s ago · a");
}

#[test]
fn the_span_is_in_its_largest_unit() {
    let text = Some(capture_text(1000, "p", &None));
    for (later, said) in [(0, "0 s"), (59, "59 s"), (60, "1 min"), (3599, "59 min"), (3600, "1 h"), (86399, "23 h"), (86400, "1 d"), (1000000, "11 d")] {
        assert_eq!(last_portal(&text, 1000 + later), format!("{said} ago · p"));
    }
    assert_eq!(last_portal(&text, 500), "0 s ago · p");
}

#[test]
fn without_a_capture_there_is_none_yet() {
    assert_eq!(last_portal(&None, 7), "none yet");
}

#[test]
fn a_broken_capture_tells_what_it_can() {
    assert_eq!(last_portal(&Some(String::new()), 120), "2 min ago · ");
    assert_eq!(last_portal(&Some("a b c d\n===== x".to_string()), 120), "2 min ago · x");
    assert_eq!(last_portal(&Some("a b c 60".to_string()), 120), "1 min ago · ");
    assert_eq!(last_portal(&Some("a b c 99999999999999999999\n=====x\n".to_string()), 5), "5 s ago · ");
}

#[test]
fn the_capture_is_one_file() {
    assert_eq!(capture_path(&Some("/home/me".to_string())), "/home/me/.torii/last-portal.txt");
    assert_eq!(capture_path(&None), "/tmp/.torii/last-portal.txt");
}

#[test]
fn a_capture_tells_the_first_line_of_an_address() {
    for (probe, told) in [("http://a/\nb", "http://a/"), ("http://a/\r\nb", "http://a/"), ("http://a/\r", "http://a/"), ("\n", ""), ("http://a/\rb", "http://a/\rb")] {
        let text = capture_text(1000, probe, &Some("===== x\n".to_string()));
        assert_eq!(last_portal(&Some(text), 1060), format!("1 min ago · {told}"));
    }
}
