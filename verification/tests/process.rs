use torii::process::{is_listener, process_id, resident_kb};

#[test]
fn numbered_entries_are_processes() {
    assert_eq!(process_id("4711", 1), Some(4711));
    assert_eq!(process_id("4711", 4711), None);
    assert_eq!(process_id("self", 1), None);
    assert_eq!(process_id("4294967295", 1), Some(u32::MAX));
    assert_eq!(process_id("4294967296", 1), None);
    assert_eq!(process_id("", 1), None);
}

fn s(text: &str) -> Option<String> {
    Some(text.to_string())
}

#[test]
fn the_listener_is_called_torii() {
    let called = |name: Option<String>| is_listener(&name, &s("torii\0"), false, false);
    assert!(called(s("torii\n")));
    assert!(called(s("torii")));
    assert!(!called(s("toriid\n")));
    assert!(!called(s("Torii\n")));
    assert!(!called(None));
}

#[test]
fn a_terminal_view_is_no_listener() {
    let runs = |cmdline: &str, input: bool, output: bool| is_listener(&s("torii\n"), &s(cmdline), input, output);
    assert!(!runs("torii\0", true, true));
    assert!(!runs("torii", true, true));
    assert!(!runs("torii\0\0", true, true));
    assert!(runs("torii\0--daemon\0", true, true));
    assert!(runs("torii\0", false, true));
    assert!(runs("torii\0", true, false));
    assert!(!runs("torii\0--once\0", false, false));
    assert!(!runs("/usr/bin/torii\0-h\0x\0", false, false));
    assert!(is_listener(&s("torii\n"), &None, false, false));
    assert!(!is_listener(&s("torii\n"), &None, true, true));
}

#[test]
fn the_status_gives_the_resident_memory() {
    assert_eq!(resident_kb("Name:\ttorii\nVmHWM:\t  9 kB\nVmRSS:\t  3456 kB\nThreads:\t1\n"), 3456);
    assert_eq!(resident_kb("VmRSS:12"), 12);
    assert_eq!(resident_kb("VmRSS:\n"), 0);
    assert_eq!(resident_kb("VmRSS: many kB\nVmRSS: 5 kB"), 0);
    assert_eq!(resident_kb(" VmRSS: 5 kB"), 0);
    assert_eq!(resident_kb(""), 0);
}
