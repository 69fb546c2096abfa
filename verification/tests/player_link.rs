use playback_sync::mpv_commander::{
    after_failed_connect, exit_code_after_player_closed, next_connect_step, on_line_read,
    parse_notification, write_failure_is_exit, ConnectStep, MpvIpcRequest, MpvIpcResponse,
    ReadStep,
};
use playback_sync::seek_offset::parse_seek_offset;
use playback_sync::text::{char_is_whitespace, same_text, trim_end};

#[test]
fn load_command_is_one_line() {
    let line = MpvIpcRequest::LoadUrl("https://x/video.mp4".to_string()).encode();
    assert_eq!(line, "{ \"command\": [\"loadfile\", \"https://x/video.mp4\"] }\n");
    assert_eq!(MpvIpcRequest::LoadUrl(String::new()).encode(), "{ \"command\": [\"loadfile\", \"\"] }\n");
}

#[test]
fn seek_command_writes_seconds() {
    let seek = |micros: i128| MpvIpcRequest::Seek(micros).encode();
    assert_eq!(seek(43_500_000), "{ \"command\": [\"seek\", 43.5, \"absolute\"] }\n");
    assert_eq!(seek(43_000_000), "{ \"command\": [\"seek\", 43, \"absolute\"] }\n");
    assert_eq!(seek(5_000_000), "{ \"command\": [\"seek\", 5, \"absolute\"] }\n");
    assert_eq!(seek(102_000_000), "{ \"command\": [\"seek\", 102, \"absolute\"] }\n");
    assert_eq!(seek(0), "{ \"command\": [\"seek\", 0, \"absolute\"] }\n");
    assert_eq!(seek(1), "{ \"command\": [\"seek\", 0.000001, \"absolute\"] }\n");
    assert_eq!(seek(10), "{ \"command\": [\"seek\", 0.00001, \"absolute\"] }\n");
    assert_eq!(seek(44_964_990), "{ \"command\": [\"seek\", 44.96499, \"absolute\"] }\n");
    assert_eq!(seek(116_470_000), "{ \"command\": [\"seek\", 116.47, \"absolute\"] }\n");
    assert_eq!(seek(999_999), "{ \"command\": [\"seek\", 0.999999, \"absolute\"] }\n");
    assert_eq!(seek(100_000), "{ \"command\": [\"seek\", 0.1, \"absolute\"] }\n");
    assert_eq!(seek(1_000_000), "{ \"command\": [\"seek\", 1, \"absolute\"] }\n");
    assert_eq!(seek(10_000_000), "{ \"command\": [\"seek\", 10, \"absolute\"] }\n");
    assert_eq!(seek(10_050_000), "{ \"command\": [\"seek\", 10.05, \"absolute\"] }\n");
    assert_eq!(seek(-2_500_000), "{ \"command\": [\"seek\", -2.5, \"absolute\"] }\n");
    assert_eq!(seek(-3_000_000), "{ \"command\": [\"seek\", -3, \"absolute\"] }\n");
    assert_eq!(seek(-1), "{ \"command\": [\"seek\", -0.000001, \"absolute\"] }\n");
}

#[test]
fn seek_command_reads_as_the_number_itself() {
    for micros in [0i128, 5_000_000, 43_500_000, 102_000_000, 44_964_990, -2_500_000, 1, 250_000] {
        let seconds = micros as f64 / 1e6;
        let expected = format!("{{ \"command\": [\"seek\", {}, \"absolute\"] }}\n", seconds);
        assert_eq!(MpvIpcRequest::Seek(micros).encode(), expected, "{micros}");
    }
}

#[test]
fn seek_command_holds_the_whole_range() {
    let seek = |micros: i128| MpvIpcRequest::Seek(micros).encode();
    assert_eq!(
        seek(i128::MAX),
        "{ \"command\": [\"seek\", 170141183460469231731687303715884.105727, \"absolute\"] }\n"
    );
    assert_eq!(
        seek(i128::MIN),
        "{ \"command\": [\"seek\", -170141183460469231731687303715884.105728, \"absolute\"] }\n"
    );
    assert_eq!(
        seek(i128::MAX - 105_727),
        "{ \"command\": [\"seek\", 170141183460469231731687303715884, \"absolute\"] }\n"
    );
}

#[test]
fn seconds_written_read_back_as_the_same_offset() {
    for micros in [0u64, 1, 999_999, 1_000_000, 44_964_990, 116_470_000, u64::MAX] {
        let line = MpvIpcRequest::Seek(micros as i128).encode();
        let text = line
            .strip_prefix("{ \"command\": [\"seek\", ")
            .unwrap()
            .strip_suffix(", \"absolute\"] }\n")
            .unwrap();
        assert_eq!(parse_seek_offset(text), Some(micros));
        let seconds: f64 = text.parse().unwrap();
        assert!((seconds - micros as f64 / 1e6).abs() <= seconds.abs() * 1e-15);
    }
}

#[test]
fn two_notifications_are_recognised() {
    assert_eq!(parse_notification("{\"event\":\"file-loaded\"}"), Some(MpvIpcResponse::FileLoaded));
    assert_eq!(parse_notification("{\"event\":\"file-loaded\"}\n"), Some(MpvIpcResponse::FileLoaded));
    assert_eq!(parse_notification("{\"event\":\"file-loaded\"}\r\n"), Some(MpvIpcResponse::FileLoaded));
    assert_eq!(parse_notification("{\"event\":\"file-loaded\"} \t \n"), Some(MpvIpcResponse::FileLoaded));
    assert_eq!(
        parse_notification("{\"event\":\"playback-restart\"}\n"),
        Some(MpvIpcResponse::PlaybackRestart)
    );
}

#[test]
fn other_lines_are_ignored() {
    for line in [
        "",
        "\n",
        " {\"event\":\"file-loaded\"}\n",
        "{\"event\":\"file-loaded\"}x\n",
        "{\"event\": \"file-loaded\"}\n",
        "{\"event\":\"seek\"}\n",
        "{\"event\":\"file-loaded\"}\n{\"event\":\"file-loaded\"}\n",
        "{\"data\":null,\"request_id\":0,\"error\":\"success\"}\n",
    ] {
        assert_eq!(parse_notification(line), None, "{line:?}");
        assert_eq!(on_line_read(line.len().max(1), line), ReadStep::Ignore, "{line:?}");
    }
}

#[test]
fn read_of_nothing_means_the_player_exited() {
    assert_eq!(on_line_read(0, ""), ReadStep::PlayerExited);
    assert_eq!(on_line_read(0, "{\"event\":\"file-loaded\"}\n"), ReadStep::PlayerExited);
    assert_eq!(
        on_line_read(24, "{\"event\":\"file-loaded\"}\n"),
        ReadStep::Forward(MpvIpcResponse::FileLoaded)
    );
    assert_eq!(
        on_line_read(29, "{\"event\":\"playback-restart\"}\n"),
        ReadStep::Forward(MpvIpcResponse::PlaybackRestart)
    );
}

#[test]
fn only_a_broken_pipe_ends_the_program() {
    assert!(write_failure_is_exit(Some(32)));
    assert!(!write_failure_is_exit(Some(11)));
    assert!(!write_failure_is_exit(Some(0)));
    assert!(!write_failure_is_exit(Some(-32)));
    assert!(!write_failure_is_exit(None));
}

#[test]
fn connecting_is_tried_forty_one_times() {
    let mut failed: u32 = 0;
    let mut slept: u64 = 0;
    let mut attempts = 0;
    while next_connect_step(failed) == ConnectStep::Attempt {
        attempts += 1;
        let (next, pause) = after_failed_connect(failed);
        assert_eq!(next, failed + 1);
        assert_eq!(pause, 50);
        failed = next;
        slept += pause;
    }
    assert_eq!(attempts, 41);
    assert_eq!(slept, 2_050);
    assert_eq!(next_connect_step(41), ConnectStep::GiveUp);
    assert_eq!(next_connect_step(u32::MAX), ConnectStep::GiveUp);
    assert_eq!(next_connect_step(40), ConnectStep::Attempt);
    assert_eq!(next_connect_step(0), ConnectStep::Attempt);
}

#[test]
fn white_space_is_that_of_unicode() {
    for code in 0..=0x10FFFFu32 {
        if let Some(c) = char::from_u32(code) {
            assert_eq!(char_is_whitespace(c), c.is_whitespace(), "U+{code:04X}");
        }
    }
}

#[test]
fn trimming_cuts_white_space_off_the_end_only() {
    for text in ["", " ", "a", " a ", "a \n\t\r", "\u{3000}a\u{3000}\u{2028}", "a b  ", "\n", "é \u{85}", "a\u{200B}"] {
        assert_eq!(trim_end(text), text.trim_end(), "{text:?}");
    }
}

#[test]
fn texts_are_the_same_by_their_characters() {
    assert!(same_text("", ""));
    assert!(same_text("abc", "abc"));
    assert!(!same_text("abc", "abd"));
    assert!(!same_text("abc", "ab"));
    assert!(!same_text("ab", "abc"));
    assert!(!same_text("é", "e"));
}

#[test]
fn a_closed_connection_never_ends_with_zero() {
    assert_eq!(exit_code_after_player_closed(Some(0)), 1);
    assert_eq!(exit_code_after_player_closed(None), 1);
    assert_eq!(exit_code_after_player_closed(Some(1)), 1);
    assert_eq!(exit_code_after_player_closed(Some(2)), 2);
    assert_eq!(exit_code_after_player_closed(Some(-9)), -9);
    assert_eq!(exit_code_after_player_closed(Some(i32::MAX)), i32::MAX);
    assert_eq!(exit_code_after_player_closed(Some(i32::MIN)), i32::MIN);
}
