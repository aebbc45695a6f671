use torii::fetch::{fetch_text, pick_address, request_text, was_sent, Fetch, ANSWER_LIMIT};

#[test]
fn the_request_is_a_browsers() {
    assert_eq!(
        request_text("example.org", 80, "/check?x"),
        "GET /check?x HTTP/1.1\r\nHost: example.org\r\nUser-Agent: Mozilla/5.0 (X11; Linux x86_64) torii\r\nAccept: text/html,*/*\r\nConnection: close\r\n\r\n"
    );
    assert!(request_text("example.org", 8080, "/").starts_with("GET / HTTP/1.1\r\nHost: example.org:8080\r\nUser-Agent: "));
}

#[test]
fn an_ipv4_address_comes_first() {
    assert_eq!(pick_address(&vec![]), None);
    assert_eq!(pick_address(&vec![false]), Some(0));
    assert_eq!(pick_address(&vec![false, false]), Some(0));
    assert_eq!(pick_address(&vec![true, true]), Some(0));
    assert_eq!(pick_address(&vec![false, false, true, true]), Some(2));
}

#[test]
fn a_failure_says_why() {
    assert_eq!(fetch_text("h", &Fetch::Unresolved), "cannot resolve h\n");
    assert_eq!(fetch_text("h", &Fetch::Unconnected("refused".into())), "cannot connect to h: refused\n");
    assert_eq!(fetch_text("h", &Fetch::Unsent("gone".into())), "cannot send to h: gone\n");
    assert_eq!(fetch_text("h", &Fetch::Unanswered("timed out".into())), "no answer from h: timed out\n");
    assert_eq!(fetch_text("h", &Fetch::Answered(vec![])), "no answer from h: connection closed\n");
}

#[test]
fn an_answer_is_read_as_text() {
    assert_eq!(fetch_text("h", &Fetch::Answered("HTTP/1.1 200 Ça va".as_bytes().to_vec())), "HTTP/1.1 200 Ça va");
    assert_eq!(fetch_text("h", &Fetch::Answered(vec![b'a', 0xff, b'b'])), "a\u{fffd}b");
}

#[test]
fn an_answer_is_kept_up_to_eight_kilobytes() {
    let long: Vec<u8> = (0..9000u32).map(|i| b'a' + (i % 26) as u8).collect();
    let kept = fetch_text("h", &Fetch::Answered(long.clone()));
    assert_eq!(ANSWER_LIMIT, 8192);
    assert_eq!(kept.as_bytes(), &long[..8192]);
    let exact = fetch_text("h", &Fetch::Answered(long[..8192].to_vec()));
    assert_eq!(exact.as_bytes(), &long[..8192]);
}

#[test]
fn an_answer_that_grows_as_text_is_cut() {
    let kept = fetch_text("h", &Fetch::Answered(vec![0xff; 9000]));
    assert_eq!(kept, "\u{fffd}".repeat(2730));
    assert!(kept.len() <= ANSWER_LIMIT);
    let mut split = vec![b'a'; 8191];
    split.extend("é".as_bytes());
    assert_eq!(fetch_text("h", &Fetch::Answered(split)), "a".repeat(8191));
    for width in ["é", "日", "🔒"] {
        let text = width.repeat(5000);
        let kept = fetch_text("h", &Fetch::Answered(text.as_bytes().to_vec()));
        assert_eq!(kept, width.repeat(8192 / width.len()));
    }
}

#[test]
fn only_some_requests_go_out() {
    assert!(was_sent(&Fetch::Answered(vec![])));
    assert!(was_sent(&Fetch::Unanswered("x".into())));
    assert!(!was_sent(&Fetch::Unresolved));
    assert!(!was_sent(&Fetch::Unconnected("x".into())));
    assert!(!was_sent(&Fetch::Unsent("x".into())));
}
