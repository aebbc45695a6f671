use torii::screen::{draw, draw_body, draw_bottom, draw_top, foot_line, listener_line, Network, Status};

fn status() -> Status<String> {
    Status {
        listener: Some((42, "3.4".to_string())),
        network: Some(Network { name: Some("Café".to_string()), way_out: Some(2) }),
        last: "1 h ago · http://x/".to_string(),
    }
}

#[test]
fn the_listener_is_told_in_colour() {
    assert_eq!(
        listener_line(&Some((42, "3.4".to_string()))),
        "\x1b[38;2;120;230;140;48;2;38;38;38mlistening · pid 42 · 3.4 MB\x1b[0m"
    );
    assert_eq!(
        listener_line(&None),
        "\x1b[38;2;230;180;90;48;2;38;38;38mnot listening · start `torii` with your session\x1b[0m"
    );
}

#[test]
fn the_top_bar_is_filled() {
    let bar = "48;2;38;38;38m";
    assert_eq!(
        draw_top(12, &None, 9),
        format!(
            "\x1b[1;1H\x1b[{bar} \x1b[0m\x1b[1;38;2;247;76;0;{bar}torii\x1b[0m\x1b[{bar}   \x1b[0m{}\x1b[{bar}   \x1b[0m",
            listener_line(&None)
        )
    );
    assert!(draw_top(5, &None, 9).ends_with("\x1b[48;2;38;38;38m\x1b[0m"));
}

#[test]
fn the_body_fills_the_rows_between_the_bars() {
    let label = |name: &str| format!("\x1b[38;2;140;140;150m   {name:<14}\x1b[0m");
    let text = |t: &str| format!("\x1b[38;2;225;225;230m{t}\x1b[0m");
    let s = status();
    assert_eq!(draw_body(&s, 0), "");
    assert_eq!(draw_body(&s, 4), "");
    let expected = format!(
        "\x1b[3;1H{}\x1b[1;38;2;225;225;230mCafé\x1b[0m\x1b[K\x1b[4;1H{}\x1b[1;38;2;230;180;90ma login page (o opens it)\x1b[0m\x1b[K\x1b[5;1H{}{}\x1b[K\x1b[6;1H\x1b[K\x1b[7;1H\x1b[3;38;2;140;140;150m   When a network wants you to log in first, torii opens its page in the browser by itself.\x1b[0m\x1b[K\x1b[8;1H\x1b[K",
        label("Network"), label("Way out"), label("Last portal"), text("1 h ago · http://x/")
    );
    assert_eq!(draw_body(&s, 10), expected);
    assert!(expected.starts_with(&draw_body(&s, 6)));
}

#[test]
fn the_way_out_is_told() {
    let with = |network| draw_body(&Status { listener: None, network, last: String::new() }, 6);
    let way = |v| with(Some(Network { name: None, way_out: v }));
    assert!(way(Some(4)).contains("\x1b[38;2;120;230;140mthe internet\x1b[0m"));
    assert!(way(Some(3)).contains("\x1b[38;2;230;180;90mlimited\x1b[0m"));
    assert!(way(None).contains("\x1b[38;2;140;140;150munknown\x1b[0m"));
    assert!(way(None).contains("\x1b[1;38;2;225;225;230mnone\x1b[0m"));
    assert!(with(None).contains("NetworkManager is not on the system bus"));
    assert!(with(None).contains("\x1b[38;2;140;140;150munknown\x1b[0m"));
}

#[test]
fn the_foot_leaves_room_for_the_version() {
    assert_eq!(foot_line(80, "", "0.1.3"), " o open the login page · c check now · q back");
    assert_eq!(foot_line(80, "noted", "0.1.3"), " noted");
    assert_eq!(foot_line(14, "abcdefgh", "0.1.3"), " abcd");
    assert_eq!(foot_line(14, "é…·défgh", "0.1.3"), " é…·d");
    assert_eq!(foot_line(3, "abc", "0.1.3"), " ");
}

#[test]
fn the_bottom_bar_is_filled() {
    assert_eq!(
        draw_bottom(12, 24, " hi", 3, "1"),
        "\x1b[24;1H\x1b[38;2;200;200;205;48;2;38;38;38m hi      \x1b[0m\x1b[38;2;140;140;150;48;2;38;38;38mv1 \x1b[0m"
    );
}

#[test]
fn the_bars_go_from_side_to_side() {
    let long = "x".repeat(300);
    for cols in [40u16, 41, 80, 200] {
        for note in ["", "noted", "asking NetworkManager to check…", long.as_str()] {
            let frame = draw(cols, 24, &status(), note, "0.1.3");
            let bottom = frame.split("\x1b[24;1H").nth(1).unwrap();
            assert_eq!(crust::display_width(bottom), cols as usize);
            let top = frame.split("\x1b[3;1H").next().unwrap();
            assert_eq!(crust::display_width(top), cols as usize);
        }
    }
}

#[test]
fn a_screen_is_its_three_parts() {
    let s = status();
    let expected = format!(
        "{}{}{}",
        draw_top(80, &s.listener, 9 + "listening · pid 42 · 3.4 MB".chars().count()),
        draw_body(&s, 24),
        draw_bottom(80, 24, " o open the login page · c check now · q back", 45, "0.1.3")
    );
    assert_eq!(draw(80, 24, &s, "", "0.1.3"), expected);
}

#[test]
fn wide_characters_take_two_cells() {
    let s = status();
    let frame = draw(80, 24, &s, "日本", "1");
    assert!(frame.ends_with(&draw_bottom(80, 24, " 日本", 5, "1")));
}

#[test]
fn plain_text_takes_a_cell_for_each_character() {
    let plain: String = (' '..='~').chain(['·', '…']).collect();
    assert_eq!(crust::display_width(&plain), plain.chars().count());
}

#[test]
fn stripping_undoes_styling() {
    for attrs in ["", "b", "di", "ulr", "xyz"] {
        for fg in [None, Some((1, 20, 255))] {
            for bg in [None, Some((0, 9, 10))] {
                let styled = crust::style::rgb("a [m] é", fg, bg, attrs);
                assert_eq!(crust::strip_ansi(&styled), "a [m] é");
            }
        }
    }
    assert_eq!(crust::style::rgb("t", Some((1, 2, 3)), Some((4, 5, 6)), "bxi"), "\x1b[1;3;38;2;1;2;3;48;2;4;5;6mt\x1b[0m");
    assert_eq!(crust::style::rgb("t", None, None, "x"), "t");
}
