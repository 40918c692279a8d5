use bad_frpc_launcher::frpc::{
    format_exit_line, format_log_event, line_event, strip_ansi_and_control, LogEvent,
};

#[test]
fn strip_removes_color_sequences() {
    assert_eq!(
        strip_ansi_and_control("\u{1b}[1;34m2024/01/01 [I] login to server success\u{1b}[0m"),
        "2024/01/01 [I] login to server success"
    );
}

#[test]
fn strip_lone_escape_and_controls() {
    assert_eq!(strip_ansi_and_control("a\u{1b}b"), "ab");
    assert_eq!(strip_ansi_and_control("a\u{7}b\u{0}c\u{9f}d"), "abcd");
    assert_eq!(strip_ansi_and_control("tab\tkept"), "tab\tkept");
    assert_eq!(strip_ansi_and_control("line\r\nend"), "lineend");
    assert_eq!(strip_ansi_and_control("x\u{1b}"), "x");
}

#[test]
fn strip_unterminated_sequence_drops_rest() {
    assert_eq!(strip_ansi_and_control("ok\u{1b}[12;3"), "ok");
    assert_eq!(strip_ansi_and_control("\u{1b}["), "");
}

#[test]
fn strip_is_idempotent_on_samples() {
    for s in ["\u{1b}[31mred\u{1b}[0m", "a\u{1b}\u{1b}[mb", "plain", "\u{1b}[\u{1b}[mq", "ünï\tcode"] {
        let once = strip_ansi_and_control(s);
        assert_eq!(strip_ansi_and_control(&once), once);
        assert!(once.chars().all(|c| !c.is_control() || c == '\t'));
    }
}

#[test]
fn line_event_trims_line_end_and_tags() {
    match line_event("hello\r\n", false) {
        LogEvent::Stdout(s) => assert_eq!(s, "hello"),
        _ => panic!("expected stdout"),
    }
    match line_event("\u{1b}[33mwarn\u{1b}[0m\n\n", true) {
        LogEvent::Stderr(s) => assert_eq!(s, "warn"),
        _ => panic!("expected stderr"),
    }
    match line_event("keep\r inner\n", false) {
        LogEvent::Stdout(s) => assert_eq!(s, "keep inner"),
        _ => panic!("expected stdout"),
    }
}

#[test]
fn log_event_prefixes() {
    assert_eq!(format_log_event(&LogEvent::Stdout("a".to_string())), "[OUT] a");
    assert_eq!(format_log_event(&LogEvent::Stderr("b".to_string())), "[ERR] b");
    assert_eq!(format_log_event(&LogEvent::Error("c".to_string())), "[[Error]] c");
}

#[test]
fn exit_lines() {
    assert_eq!(format_exit_line(Some(0)), "[[Exited]] 退出码=0");
    assert_eq!(format_exit_line(Some(-1)), "[[Exited]] 退出码=-1");
    assert_eq!(format_exit_line(None), "[[Exited]] 退出码=None");
}

#[test]
fn strip_distributes_over_escape_free_prefix() {
    let cases = [("ab\u{7}c", "\u{1b}[1mx\u{1b}[0m"), ("", "\u{1b}y"), ("tab\t", "\u{1b}[")];
    for (a, b) in cases {
        let joined = format!("{}{}", a, b);
        assert_eq!(
            strip_ansi_and_control(&joined),
            strip_ansi_and_control(a) + &strip_ansi_and_control(b)
        );
    }
}
