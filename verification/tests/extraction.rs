use playback_sync::local_time::{check_timestamp, parse_timestamp, LocalTime};
use playback_sync::log_line::{
    capture_seek_line, capture_url_line, check_seek_line, check_url_line, fields_from_groups,
    seek_from_fields, try_match_seek_line, try_match_url_line, url_from_fields, FoundSeek,
    FoundUrl, LineCaptures, LineError,
};
use playback_sync::matching::{passes_filter, IdentityFilter};
use playback_sync::seek_offset::{decimal_digit, parse_seek_offset};

const URL_LINE: &str = "2024.06.06 17:22:14 Log        -  [AT INFO    \tTVManager (Theatre 1 TVManager)] [VideoManager_Theatre1] (Some Username) Now Playing: https://example.net/video.mp4";
const SYNC_LINE: &str = "2024.04.22 17:55:53 Log        -  [AT INFO   TVManager (Theatre 1 TVManager)] Sync enforcement. Updating to 116.47";
const JUMP_LINE: &str = "2024.04.22 17:55:53 Log        -  [AT DEBUG  TVManager (Theatre 1 TVManager)] Jumping [VideoManager_Theatre1] to timestamp: 116.47";

fn at(year: i32, month: u32, day: u32, hour: u32, minute: u32, second: u32) -> LocalTime {
    LocalTime { year, month, day, hour, minute, second, nanosecond: 0 }
}

#[test]
fn url_line_gives_timestamp_url_and_line_number() {
    let found = check_url_line(URL_LINE, 7, &None);
    assert_eq!(
        found,
        Ok(Some(FoundUrl {
            timestamp: at(2024, 6, 6, 17, 22, 14),
            url: "https://example.net/video.mp4".to_string(),
            found_url_on_line: 7,
        }))
    );
}

#[test]
fn url_stops_at_white_space() {
    let line = "2024.06.06 17:22:14 Log - [AT INFO TVManager (A)] [B] (C) Now Playing: http://x/y.mp4 and more";
    let found = check_url_line(line, 1, &None).unwrap().unwrap();
    assert_eq!(found.url, "http://x/y.mp4");
}

#[test]
fn lines_of_another_shape_give_nothing() {
    let others = [
        "",
        "2024.06.06 17:22:14 Log        -  [Video Playback] Attempting to resolve URL 'https://example.net/video.mp4'",
        "Log - [AT INFO TVManager (A)] [B] (C) Now Playing: https://x/video.mp4",
        "2024.06.06 17:22:14 Log - [AT INFO TVManager (A)] [B] (C) Now Playing: ftp://x/video.mp4",
        " 2024.06.06 17:22:14 Warning - [AT INFO TVManager (A)] [B] (C) Now Playing: https://x/v",
    ];
    for line in others {
        assert_eq!(check_url_line(line, 1, &None), Ok(None), "{line}");
        assert_eq!(check_seek_line(line, &None), Ok(None), "{line}");
        assert_eq!(capture_url_line(line), None);
        assert_eq!(capture_seek_line(line), None);
    }
    assert_eq!(check_seek_line(URL_LINE, &None), Ok(None));
    assert_eq!(check_url_line(SYNC_LINE, 1, &None), Ok(None));
}

#[test]
fn seek_line_must_end_with_the_offset() {
    let line = format!("{SYNC_LINE} seconds");
    assert_eq!(check_seek_line(&line, &None), Ok(None));
}

#[test]
fn filter_decides_whose_facts_count() {
    let theatre_one = IdentityFilter::new("^Theatre 1 ");
    assert!(theatre_one.is_some());
    let theatre_two = IdentityFilter::new("Theatre 2");
    assert!(theatre_two.is_some());
    assert!(check_url_line(URL_LINE, 1, &theatre_one).unwrap().is_some());
    assert_eq!(check_url_line(URL_LINE, 1, &theatre_two), Ok(None));
    assert!(check_seek_line(SYNC_LINE, &theatre_one).unwrap().is_some());
    assert_eq!(check_seek_line(SYNC_LINE, &theatre_two), Ok(None));
}

#[test]
fn filter_matches_anywhere_in_the_name() {
    let filter = IdentityFilter::new("TV").unwrap();
    assert_eq!(filter.pattern(), "TV");
    assert!(filter.accepts("Theatre 1 TVManager"));
    assert!(!filter.accepts("Theatre 1"));
    assert!(passes_filter(&Some(filter), "a TV"));
    assert!(passes_filter(&None, "anything"));
}

#[test]
fn invalid_pattern_makes_no_filter() {
    assert!(IdentityFilter::new("(").is_none());
    assert!(IdentityFilter::new("[a-").is_none());
    assert!(IdentityFilter::new("").is_some());
}

#[test]
fn both_phrasings_give_the_same_fact() {
    let expected = FoundSeek { timestamp: at(2024, 4, 22, 17, 55, 53), seek_offset: 116_470_000 };
    assert_eq!(check_seek_line(SYNC_LINE, &None), Ok(Some(expected)));
    assert_eq!(check_seek_line(JUMP_LINE, &None), Ok(Some(expected)));
    let paused = "2024.04.22 17:55:53 Log        -  [AT DEBUG  TVManager (Theatre 1 TVManager)] Paused drift threshold exceeded. Updating to 116.47";
    assert_eq!(check_seek_line(paused, &None), Ok(Some(expected)));
    let requested = "2024.04.22 17:55:53 Log        -  [ATA | TVManagerV2 (Theatre 1 TVManager)] Sync enforcement requested. Updating to 116.47";
    assert_eq!(check_seek_line(requested, &None), Ok(Some(expected)));
}

#[test]
fn unreadable_timestamp_is_an_error() {
    let url = "2024.13.45 99:99:99 Log - [AT INFO TVManager (A)] [B] (C) Now Playing: https://x/video.mp4";
    assert_eq!(check_url_line(url, 1, &None), Err(LineError::BadTimestamp));
    let seek = "2024.04.22 Log - [AT INFO TVManager (A)] Sync enforcement. Updating to 1.5";
    assert_eq!(check_seek_line(seek, &None), Err(LineError::BadTimestamp));
}

#[test]
fn filter_is_asked_before_the_fields_are_read() {
    let nobody = IdentityFilter::new("^nobody$");
    let url = "2024.13.45 99:99:99 Log - [AT INFO TVManager (A)] [B] (C) Now Playing: https://x/video.mp4";
    assert_eq!(check_url_line(url, 1, &nobody), Ok(None));
    let seek = "2024.04.22 17:55:53 Log - [AT INFO TVManager (A)] Sync enforcement. Updating to 1.2.3";
    assert_eq!(check_seek_line(seek, &nobody), Ok(None));
}

#[test]
fn unreadable_offset_is_an_error() {
    let seek = "2024.04.22 17:55:53 Log - [AT INFO TVManager (A)] Sync enforcement. Updating to 1.2.3";
    assert_eq!(check_seek_line(seek, &None), Err(LineError::BadSeekOffset));
    let dot = "2024.04.22 17:55:53 Log - [AT INFO TVManager (A)] Sync enforcement. Updating to .";
    assert_eq!(check_seek_line(dot, &None), Err(LineError::BadSeekOffset));
}

#[test]
fn timestamp_is_read_in_the_format_of_the_log() {
    assert_eq!(check_timestamp("2024.04.22 17:55:53"), Some(at(2024, 4, 22, 17, 55, 53)));
    assert_eq!(check_timestamp("2024.01.01 10:00:00"), Some(at(2024, 1, 1, 10, 0, 0)));
    assert_eq!(check_timestamp("2024-04-22 17:55:53"), None);
    assert_eq!(check_timestamp("2024.02.30 17:55:53"), None);
    assert_eq!(check_timestamp("2024.04.22 24:00:00"), None);
    assert_eq!(check_timestamp("17:55:53"), None);
    assert_eq!(check_timestamp(""), None);
}

#[test]
fn leap_second_is_kept() {
    let leap = check_timestamp("2016.12.31 23:59:60").unwrap();
    assert_eq!(
        leap,
        LocalTime {
            year: 2016,
            month: 12,
            day: 31,
            hour: 23,
            minute: 59,
            second: 59,
            nanosecond: 1_000_000_000
        }
    );
}

#[test]
fn offsets_are_read_as_microseconds() {
    assert_eq!(parse_seek_offset("116.47"), Some(116_470_000));
    assert_eq!(parse_seek_offset("64.8041"), Some(64_804_100));
    assert_eq!(parse_seek_offset("171.1321"), Some(171_132_100));
    assert_eq!(parse_seek_offset("44.96499"), Some(44_964_990));
    assert_eq!(parse_seek_offset("42.0"), Some(42_000_000));
    assert_eq!(parse_seek_offset("0"), Some(0));
    assert_eq!(parse_seek_offset("5"), Some(5_000_000));
    assert_eq!(parse_seek_offset("5."), Some(5_000_000));
    assert_eq!(parse_seek_offset(".5"), Some(500_000));
    assert_eq!(parse_seek_offset("007.25"), Some(7_250_000));
    assert_eq!(parse_seek_offset("0.000001"), Some(1));
}

#[test]
fn digits_behind_the_sixth_place_are_dropped() {
    assert_eq!(parse_seek_offset("0.1234567"), Some(123_456));
    assert_eq!(parse_seek_offset("0.0000009"), Some(0));
    assert_eq!(parse_seek_offset("1.9999999999"), Some(1_999_999));
}

#[test]
fn what_is_no_number_has_no_offset() {
    for text in ["", ".", "..", "1.2.3", "1..2", "abc", "1e3", "-1", "+1", " 1", "1 ", "1,5", "١"] {
        assert_eq!(parse_seek_offset(text), None, "{text:?}");
    }
    assert_eq!(parse_seek_offset("0.12345678x"), None);
}

#[test]
fn offsets_end_where_u64_ends() {
    assert_eq!(parse_seek_offset("18446744073709.551615"), Some(u64::MAX));
    assert_eq!(parse_seek_offset("18446744073709.551616"), None);
    assert_eq!(parse_seek_offset("18446744073710"), None);
    assert_eq!(parse_seek_offset("99999999999999999999999999999999999999999999"), None);
    assert_eq!(parse_seek_offset("00000000000000000000000000000000000000000001"), Some(1_000_000));
}

#[test]
fn decimal_digits_are_the_ten_ascii_digits() {
    for (value, c) in "0123456789".chars().enumerate() {
        assert_eq!(decimal_digit(c), Some(value as u8));
    }
    for c in ['/', ':', 'a', ' ', '.', '٣', '５'] {
        assert_eq!(decimal_digit(c), None);
    }
}

#[test]
fn fields_need_three_groups_that_took_part() {
    let text = |s: &str| Some(s.to_string());
    let whole = text("whole");
    assert_eq!(fields_from_groups(None), None);
    assert_eq!(fields_from_groups(Some(vec![])), None);
    assert_eq!(fields_from_groups(Some(vec![whole.clone(), text("a"), text("b")])), None);
    assert_eq!(
        fields_from_groups(Some(vec![whole.clone(), text("a"), None, text("c")])),
        None
    );
    assert_eq!(
        fields_from_groups(Some(vec![whole.clone(), text("a"), text("b"), text("c"), text("d")])),
        None
    );
    assert_eq!(
        fields_from_groups(Some(vec![None, text("a"), text("b"), text("c")])),
        Some(LineCaptures {
            timestamp: "a".to_string(),
            player_name: "b".to_string(),
            value: "c".to_string()
        })
    );
}

#[test]
fn facts_are_built_from_their_parts() {
    let fields = LineCaptures {
        timestamp: "t".to_string(),
        player_name: "p".to_string(),
        value: "1.5".to_string(),
    };
    let reading = Some(at(2024, 1, 1, 10, 0, 0));
    assert_eq!(url_from_fields(fields.clone(), false, reading, 3), Ok(None));
    assert_eq!(url_from_fields(fields.clone(), false, None, 3), Ok(None));
    assert_eq!(url_from_fields(fields.clone(), true, None, 3), Err(LineError::BadTimestamp));
    assert_eq!(
        url_from_fields(fields.clone(), true, reading, 3),
        Ok(Some(FoundUrl {
            timestamp: at(2024, 1, 1, 10, 0, 0),
            url: "1.5".to_string(),
            found_url_on_line: 3
        }))
    );
    assert_eq!(seek_from_fields(&fields, false, None), Ok(None));
    assert_eq!(seek_from_fields(&fields, true, None), Err(LineError::BadTimestamp));
    assert_eq!(
        seek_from_fields(&fields, true, reading),
        Ok(Some(FoundSeek { timestamp: at(2024, 1, 1, 10, 0, 0), seek_offset: 1_500_000 }))
    );
    let bad = LineCaptures { value: "1.5.".to_string(), ..fields };
    assert_eq!(seek_from_fields(&bad, true, reading), Err(LineError::BadSeekOffset));
    assert_eq!(seek_from_fields(&bad, true, None), Err(LineError::BadTimestamp));
}

#[test]
fn readable_lines_are_read_without_a_check() {
    assert_eq!(
        try_match_url_line(URL_LINE, 7, &None),
        Some(FoundUrl {
            timestamp: at(2024, 6, 6, 17, 22, 14),
            url: "https://example.net/video.mp4".to_string(),
            found_url_on_line: 7,
        })
    );
    let expected = FoundSeek { timestamp: at(2024, 4, 22, 17, 55, 53), seek_offset: 116_470_000 };
    assert_eq!(try_match_seek_line(SYNC_LINE, &None), Some(expected));
    assert_eq!(try_match_seek_line(JUMP_LINE, &None), Some(expected));
    assert_eq!(try_match_url_line(SYNC_LINE, 1, &None), None);
    assert_eq!(try_match_seek_line(URL_LINE, &None), None);
    assert_eq!(try_match_url_line("", 1, &None), None);
    assert_eq!(try_match_seek_line("", &None), None);
    assert_eq!(parse_timestamp("2024.04.22 17:55:53"), at(2024, 4, 22, 17, 55, 53));
}

#[test]
fn the_filter_spares_an_unreadable_line_the_reading() {
    let nobody = IdentityFilter::new("^nobody$");
    let url = "2024.13.45 99:99:99 Log - [AT INFO TVManager (A)] [B] (C) Now Playing: https://x/video.mp4";
    assert_eq!(try_match_url_line(url, 1, &nobody), None);
    let seek = "2024.04.22 17:55:53 Log - [AT INFO TVManager (A)] Sync enforcement. Updating to 1.2.3";
    assert_eq!(try_match_seek_line(seek, &nobody), None);
}

#[test]
fn checked_and_unchecked_reading_agree() {
    let theatre_one = IdentityFilter::new("^Theatre 1 ");
    for line in [URL_LINE, SYNC_LINE, JUMP_LINE, "", "no fact here"] {
        for filter in [&None, &theatre_one] {
            assert_eq!(check_url_line(line, 3, filter), Ok(try_match_url_line(line, 3, filter)));
            assert_eq!(check_seek_line(line, filter), Ok(try_match_seek_line(line, filter)));
        }
    }
}
