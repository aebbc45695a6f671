use torii::http::{redirect_target, resolve, split_http};

#[test]
fn plain_http_addresses_split() {
    assert_eq!(split_http("http://connectivity-check.ubuntu.com/"), Some(("connectivity-check.ubuntu.com".into(), 80, "/".into())));
    assert_eq!(split_http("http://1.2.3.4:8880/a?b"), Some(("1.2.3.4".into(), 8880, "/a?b".into())));
    assert_eq!(split_http("https://x/"), None);
}

#[test]
fn a_portal_redirect_is_followed() {
    let raw = "HTTP/1.1 302 Moved Temporarily\r\nConnection: close\r\nLocation: http://192.168.1.1:8880/guest/s/default/?ap=x\r\n\r\n";
    assert_eq!(redirect_target(raw, "http://connectivity-check.ubuntu.com/").as_deref(), Some("http://192.168.1.1:8880/guest/s/default/?ap=x"));
    let rel = "HTTP/1.1 302 Found\r\nlocation: /login\r\n\r\n";
    assert_eq!(redirect_target(rel, "http://10.0.0.1:8080/").as_deref(), Some("http://10.0.0.1:8080/login"));
    assert_eq!(redirect_target("HTTP/1.1 204 No Content\r\n\r\n", "http://x/"), None);
}

#[test]
fn an_address_without_a_path_asks_for_the_root() {
    assert_eq!(split_http("http://x"), Some(("x".into(), 80, "/".into())));
    assert_eq!(split_http("http://x:81"), Some(("x".into(), 81, "/".into())));
    assert_eq!(split_http("http://"), Some(("".into(), 80, "/".into())));
}

#[test]
fn a_port_must_be_a_number_of_sixteen_bits() {
    assert_eq!(split_http("http://x:65535/"), Some(("x".into(), 65535, "/".into())));
    assert_eq!(split_http("http://x:65536/"), None);
    assert_eq!(split_http("http://x:/"), None);
    assert_eq!(split_http("http://x:+/"), None);
    assert_eq!(split_http("http://x:-1/"), None);
    assert_eq!(split_http("http://x:8a/"), None);
    assert_eq!(split_http("http://x:+8/"), Some(("x".into(), 8, "/".into())));
    assert_eq!(split_http("http://x:0080/"), Some(("x".into(), 80, "/".into())));
    assert_eq!(split_http("http://x:99999999999999999999999/"), None);
}

#[test]
fn the_last_colon_of_the_host_begins_the_port() {
    assert_eq!(split_http("http://[::1]:8080/a"), Some(("[::1]".into(), 8080, "/a".into())));
    assert_eq!(split_http("http://[::1]/a"), None);
    assert_eq!(split_http("http://x/a:b"), Some(("x".into(), 80, "/a:b".into())));
}

#[test]
fn only_plain_http_splits() {
    assert_eq!(split_http("HTTP://x/"), None);
    assert_eq!(split_http(" http://x/"), None);
    assert_eq!(split_http("http:/x/"), None);
    assert_eq!(split_http(""), None);
}

#[test]
fn a_written_address_splits_into_its_parts() {
    for (host, port, path) in [("portal.example", 80u16, "/"), ("10.0.0.1", 8880, "/a/b?c"), ("[::1]", 81, "/é")] {
        let full = format!("http://{host}:{port}{path}");
        assert_eq!(split_http(&full), Some((host.to_string(), port, path.to_string())));
        let short = if port == 80 { format!("http://{host}{path}") } else { full };
        assert_eq!(split_http(&short), Some((host.to_string(), port, path.to_string())));
    }
}

#[test]
fn a_redirect_to_a_path_keeps_host_and_port() {
    let raw = "HTTP/1.1 307 x\r\nLOCATION:\t /guest?a=b \r\n\r\n";
    let to = redirect_target(raw, "http://10.0.0.1:8080/check").unwrap();
    assert_eq!(split_http(&to), Some(("10.0.0.1".into(), 8080, "/guest?a=b".into())));
    assert_eq!(redirect_target(raw, "http://a.b:80/x").as_deref(), Some("http://a.b/guest?a=b"));
    assert_eq!(redirect_target(raw, "https://a.b/x"), None);
    let colon_host = redirect_target(raw, "http://[::1]:80/").unwrap();
    assert_eq!(colon_host, "http://[::1]/guest?a=b");
    assert_eq!(split_http(&colon_host), None);
}

#[test]
fn a_location_is_made_absolute() {
    let to = |location: &str, base: &str| redirect_target(&format!("HTTP/1.1 302 Found\r\nLocation: {location}\r\n\r\n"), base);
    assert_eq!(to("login", "http://10.0.0.1/").as_deref(), Some("http://10.0.0.1/login"));
    assert_eq!(to("login.html", "http://x/a/b?c=/d#e/f").as_deref(), Some("http://x/a/login.html"));
    assert_eq!(to("login", "http://x").as_deref(), Some("http://x/login"));
    assert_eq!(to("a/b:c", "http://x:81/y").as_deref(), Some("http://x:81/a/b:c"));
    assert_eq!(to("?a=b", "http://x/y/z?q").as_deref(), Some("http://x/y/z?a=b"));
    assert_eq!(to("#top", "http://x/y?q#r").as_deref(), Some("http://x/y?q#top"));
    assert_eq!(to("//host/p", "http://x:81/").as_deref(), Some("http://host/p"));
    assert_eq!(to("", "http://x:80/y?z").as_deref(), Some("http://x:80/y?z"));
    assert_eq!(to("https://y/", "nothing").as_deref(), Some("https://y/"));
    assert_eq!(to("login", "https://x/"), None);
    assert_eq!(to("", "https://x/"), None);
    assert_eq!(to("//host/p", "https://x/"), None);
}

#[test]
fn a_scheme_makes_an_address_absolute() {
    for absolute in ["http://y/", "HTTPS://y/", "mailto:x", "a1+-.b:"] {
        assert_eq!(resolve(absolute, "").as_deref(), Some(absolute));
    }
    assert_eq!(resolve(":x", "http://h/").as_deref(), Some("http://h/:x"));
    assert_eq!(resolve("1a:x", "http://h/").as_deref(), Some("http://h/1a:x"));
    assert_eq!(resolve("a/b:x", "http://h/").as_deref(), Some("http://h/a/b:x"));
    assert_eq!(resolve("a_b:x", "http://h/").as_deref(), Some("http://h/a_b:x"));
    assert_eq!(resolve("é:x", "http://h/").as_deref(), Some("http://h/é:x"));
}

#[test]
fn every_redirect_is_absolute_and_one_without_a_host_stays() {
    for (location, path) in [("login", "/d/login"), ("/login", "/login"), ("?q", "/d/e?q"), ("#f", "/d/e?x#f"), ("", "/d/e?x")] {
        let raw = format!("HTTP/1.1 302 Found\r\nLocation: {location}\r\n\r\n");
        let to = redirect_target(&raw, "http://a.b:8080/d/e?x").unwrap();
        assert!(to.starts_with("http://"));
        assert_eq!(split_http(&to), Some(("a.b".into(), 8080, path.into())));
    }
}

#[test]
fn the_location_stands_before_the_first_blank_line() {
    assert_eq!(redirect_target("HTTP/1.1 302 Found\r\n\r\nLocation: /a\r\n", "http://x/"), None);
    assert_eq!(redirect_target("HTTP/1.1 302 Found\r\n \t\r\nLocation: /a\r\n", "http://x/"), None);
    assert_eq!(redirect_target("HTTP/1.1 302 Found\r\nLocation: /a\r\nLocation: /b\r\n", "http://x/").as_deref(), Some("http://x/a"));
    assert_eq!(redirect_target("HTTP/1.1 302 Found\r\n Location : /a", "http://x/").as_deref(), Some("http://x/a"));
    assert_eq!(redirect_target("HTTP/1.1 302 Found\r\nX-Location: /a\r\n\r\n", "http://x/"), None);
}

#[test]
fn only_a_status_with_a_three_redirects() {
    let with = |status: &str| format!("{status}\r\nLocation: http://y/\r\n\r\n");
    assert_eq!(redirect_target(&with("HTTP/1.1 200 OK"), "http://x/"), None);
    assert_eq!(redirect_target(&with("HTTP/1.1 404 3"), "http://x/"), None);
    assert_eq!(redirect_target(&with("HTTP/1.1"), "http://x/"), None);
    assert_eq!(redirect_target("", "http://x/"), None);
    assert_eq!(redirect_target("\r\nHTTP/1.1 302 Found\r\nLocation: /a", "http://x/"), None);
    assert_eq!(redirect_target(&with("  HTTP/1.1 \u{a0}3"), "http://x/").as_deref(), Some("http://y/"));
}

#[test]
fn a_redirect_leads_on_only_with_a_location_and_a_base() {
    let found = "HTTP/1.1 302 Found\r\nLocation: /login\r\n\r\n";
    assert_eq!(redirect_target(found, "http://a:b:80/x").as_deref(), Some("http://a:b/login"));
    assert_eq!(redirect_target(found, "http://a:b:81/x").as_deref(), Some("http://a:b:81/login"));
    assert_eq!(redirect_target(found, "http://a:b/x"), None);
    assert_eq!(redirect_target("HTTP/1.1 302 Found\r\nServer: x\r\n\r\n", "http://a/"), None);
    assert_eq!(redirect_target("HTTP/1.1 302 Found\r\nLocation: httpx\r\n\r\n", "http://a/").as_deref(), Some("http://a/httpx"));
    assert_eq!(redirect_target("HTTP/1.1 302 Found\r\nLocation: httpx\r\n\r\n", "https://a/"), None);
}
