use ronin::harness_control::{parse_harness_command, HarnessControlCommand};

#[test]
fn parses_control_plane_commands() {
    assert_eq!(
        parse_harness_command("ping"),
        Some(HarnessControlCommand::Ping)
    );
    assert_eq!(
        parse_harness_command("open thr_1"),
        Some(HarnessControlCommand::OpenThread {
            thread_id: "thr_1".into()
        })
    );
    assert_eq!(
        parse_harness_command("scroll -40"),
        Some(HarnessControlCommand::ScrollMessages { delta: -40 })
    );
    assert_eq!(parse_harness_command("nope"), None);
}

#[test]
fn parse_command_matrix_dense() {
    for id in 0..80 {
        let line = format!("open thread_{id}");
        let cmd = parse_harness_command(&line).expect("open");
        match cmd {
            HarnessControlCommand::OpenThread { thread_id } => {
                assert_eq!(thread_id, format!("thread_{id}"));
            }
            other => panic!("{other:?}"),
        }
    }
    for delta in -40..40 {
        let line = format!("scroll {delta}");
        assert_eq!(
            parse_harness_command(&line),
            Some(HarnessControlCommand::ScrollMessages { delta })
        );
    }
    for junk in [
        "", " ", "open", "open ", "scroll", "scroll x", "pong", "OPEN x",
    ] {
        assert_eq!(parse_harness_command(junk), None, "{junk:?}");
    }
}

#[test]
fn scroll_delta_uses_i32_range_and_sign_rules() {
    assert_eq!(
        parse_harness_command("  scroll +7  "),
        Some(HarnessControlCommand::ScrollMessages { delta: 7 })
    );
    assert_eq!(
        parse_harness_command("scroll -2147483648"),
        Some(HarnessControlCommand::ScrollMessages { delta: i32::MIN })
    );
    assert_eq!(parse_harness_command("scroll 2147483648"), None);
    assert_eq!(parse_harness_command("scroll 99999999999999999999"), None);
    assert_eq!(parse_harness_command("scroll -"), None);
    assert_eq!(parse_harness_command("scroll 1x"), None);
}

#[test]
fn open_takes_trimmed_rest_of_line() {
    assert_eq!(
        parse_harness_command("open   a b  "),
        Some(HarnessControlCommand::OpenThread {
            thread_id: "a b".into()
        })
    );
    assert_eq!(parse_harness_command(" ping "), Some(HarnessControlCommand::Ping));
}

#[test]
fn printed_commands_parse_back() {
    for d in [i32::MIN, -1, 0, 7, i32::MAX] {
        assert_eq!(
            parse_harness_command(&format!("scroll {d}")),
            Some(HarnessControlCommand::ScrollMessages { delta: d })
        );
    }
    assert_eq!(
        parse_harness_command(&format!("open {}", "thread-42")),
        Some(HarnessControlCommand::OpenThread { thread_id: "thread-42".to_string() })
    );
    assert_eq!(parse_harness_command("ping"), Some(HarnessControlCommand::Ping));
}
