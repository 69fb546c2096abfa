use playback_sync::local_time::LocalTime;
use playback_sync::log_line::{FoundSeek, FoundUrl, LineError};
use playback_sync::matching::IdentityFilter;
use playback_sync::vrc_log_reader::{
    initial_state_from, read_initial_state_from_log, InitialState, InitialStateResult, ScanError,
    UrlAndSeekResult, VrcLogReader,
};
use playback_sync::vrc_log_watcher::{VrcLogWatcher, VrcLogWatcherEvent};

fn at(hour: u32, minute: u32, second: u32) -> LocalTime {
    LocalTime { year: 2024, month: 1, day: 1, hour, minute, second, nanosecond: 0 }
}

fn url_line(time: &str, player: &str, url: &str) -> String {
    format!("2024.01.01 {time} Log        -  [AT INFO    \tTVManager ({player})] [Screen] (Someone) Now Playing: {url}")
}

fn seek_line(time: &str, player: &str, offset: &str) -> String {
    format!("2024.01.01 {time} Log        -  [AT DEBUG  TVManager ({player})] Jumping [Screen] to timestamp: {offset}")
}

fn noise(n: usize) -> String {
    format!("2024.01.01 09:00:00 Log        -  [Behaviour] Something else happened {n}")
}

fn url(time: LocalTime, url: &str, line: u64) -> FoundUrl {
    FoundUrl { timestamp: time, url: url.to_string(), found_url_on_line: line }
}

fn interleaved() -> Vec<String> {
    vec![
        noise(1),
        seek_line("09:59:00", "A", "7.5"),
        url_line("10:00:00", "A", "https://x/first.mp4"),
        seek_line("10:00:10", "A", "11.25"),
        noise(2),
        url_line("10:05:00", "A", "https://x/second.mp4"),
        noise(3),
        seek_line("10:05:20", "A", "20.5"),
        seek_line("10:05:40", "A", "42.0"),
        noise(4),
    ]
}

#[test]
fn scan_takes_last_url_and_last_seek_behind_it() {
    let lines = interleaved();
    assert_eq!(
        VrcLogReader::new(None).get_latest_url_and_seek(&lines),
        Ok(UrlAndSeekResult::UrlAndSeek(
            url(at(10, 5, 0), "https://x/second.mp4", 6),
            FoundSeek { timestamp: at(10, 5, 40), seek_offset: 42_000_000 },
            10
        ))
    );
    assert_eq!(
        read_initial_state_from_log(&lines, &None),
        Ok(InitialStateResult {
            initial_state: Some(InitialState {
                timestamp: at(10, 5, 40),
                additional_offset: 42_000_000,
                url: "https://x/second.mp4".to_string(),
            }),
            lines_read_initially: 10,
        })
    );
}

#[test]
fn seeks_of_an_earlier_video_are_passed_over() {
    let mut lines = interleaved();
    lines.truncate(7);
    assert_eq!(
        VrcLogReader::new(None).get_latest_url_and_seek(&lines),
        Ok(UrlAndSeekResult::Url(url(at(10, 5, 0), "https://x/second.mp4", 6), 7))
    );
    assert_eq!(
        read_initial_state_from_log(&lines, &None),
        Ok(InitialStateResult {
            initial_state: Some(InitialState {
                timestamp: at(10, 5, 0),
                additional_offset: 0,
                url: "https://x/second.mp4".to_string(),
            }),
            lines_read_initially: 7,
        })
    );
}

#[test]
fn log_without_url_gives_no_state() {
    let lines = vec![noise(1), seek_line("09:59:00", "A", "7.5"), noise(2)];
    assert_eq!(VrcLogReader::new(None).get_latest_url_and_seek(&lines), Ok(UrlAndSeekResult::Nothing(3)));
    assert_eq!(
        read_initial_state_from_log(&lines, &None),
        Ok(InitialStateResult { initial_state: None, lines_read_initially: 3 })
    );
    let empty: Vec<String> = vec![];
    assert_eq!(VrcLogReader::new(None).get_latest_url_and_seek(&empty), Ok(UrlAndSeekResult::Nothing(0)));
}

#[test]
fn log_with_only_a_url_begins_at_zero() {
    let lines = vec![url_line("10:00:00", "A", "https://x/video.mp4")];
    assert_eq!(
        read_initial_state_from_log(&lines, &None),
        Ok(InitialStateResult {
            initial_state: Some(InitialState {
                timestamp: at(10, 0, 0),
                additional_offset: 0,
                url: "https://x/video.mp4".to_string(),
            }),
            lines_read_initially: 1,
        })
    );
}

#[test]
fn scan_honours_the_filter() {
    let lines = vec![
        url_line("10:00:00", "Theatre 1", "https://x/one.mp4"),
        seek_line("10:00:30", "Theatre 2", "99.0"),
        seek_line("10:00:20", "Theatre 1", "20.0"),
        url_line("10:01:00", "Theatre 2", "https://x/two.mp4"),
        seek_line("10:01:30", "Theatre 2", "30.0"),
    ];
    let one = IdentityFilter::new("Theatre 1");
    assert_eq!(
        VrcLogReader::new(one.clone()).get_latest_url_and_seek(&lines),
        Ok(UrlAndSeekResult::UrlAndSeek(
            url(at(10, 0, 0), "https://x/one.mp4", 1),
            FoundSeek { timestamp: at(10, 0, 20), seek_offset: 20_000_000 },
            5
        ))
    );
    let two = IdentityFilter::new("Theatre 2");
    assert_eq!(
        VrcLogReader::new(two.clone()).get_latest_url_and_seek(&lines),
        Ok(UrlAndSeekResult::UrlAndSeek(
            url(at(10, 1, 0), "https://x/two.mp4", 4),
            FoundSeek { timestamp: at(10, 1, 30), seek_offset: 30_000_000 },
            5
        ))
    );
}

#[test]
fn find_last_url_reports_the_last_one() {
    let lines = interleaved();
    assert_eq!(VrcLogReader::new(None).find_last_url(&lines), Ok(Some(url(at(10, 5, 0), "https://x/second.mp4", 6))));
    assert_eq!(VrcLogReader::new(None).find_last_url(&lines[..5].to_vec()), Ok(Some(url(at(10, 0, 0), "https://x/first.mp4", 3))));
    assert_eq!(VrcLogReader::new(None).find_last_url(&lines[..2].to_vec()), Ok(None));
}

#[test]
fn find_last_seek_reads_from_the_given_line_on() {
    let lines = interleaved();
    let last = FoundSeek { timestamp: at(10, 5, 40), seek_offset: 42_000_000 };
    assert_eq!(VrcLogReader::new(None).find_last_seek(&lines, 0), Ok(Some(last)));
    assert_eq!(VrcLogReader::new(None).find_last_seek(&lines, 1), Ok(Some(last)));
    assert_eq!(VrcLogReader::new(None).find_last_seek(&lines, 9), Ok(Some(last)));
    assert_eq!(VrcLogReader::new(None).find_last_seek(&lines, 10), Ok(None));
    assert_eq!(VrcLogReader::new(None).find_last_seek(&lines, 11), Ok(None));
    assert_eq!(VrcLogReader::new(None).find_last_seek(&lines, u64::MAX), Ok(None));
    let early = lines[..3].to_vec();
    assert_eq!(
        VrcLogReader::new(None).find_last_seek(&early, 2),
        Ok(Some(FoundSeek { timestamp: at(9, 59, 0), seek_offset: 7_500_000 }))
    );
    assert_eq!(VrcLogReader::new(None).find_last_seek(&early, 3), Ok(None));
}

#[test]
fn a_seek_on_the_line_of_the_url_counts() {
    let both = "2024.01.01 10:00:00 Log - [AT INFO TVManager (A)] [B] (C) Now Playing: https://x/v.mp4 (D)] Sync enforcement. Updating to 3.5";
    let lines = vec![noise(1), both.to_string()];
    let found = VrcLogReader::new(None).get_latest_url_and_seek(&lines).unwrap();
    match found {
        UrlAndSeekResult::UrlAndSeek(found_url, found_seek, lines_read) => {
            assert_eq!(found_url.url, "https://x/v.mp4");
            assert_eq!(found_url.found_url_on_line, 2);
            assert_eq!(found_seek.seek_offset, 3_500_000);
            assert_eq!(lines_read, 2);
        }
        other => panic!("{other:?}"),
    }
}

#[test]
fn unreadable_url_line_fails_the_scan_wherever_it_stands() {
    let mut lines = interleaved();
    lines[2] = "2024.01.01 10:61:00 Log - [AT INFO TVManager (A)] [B] (C) Now Playing: https://x/first.mp4".to_string();
    assert_eq!(
        VrcLogReader::new(None).get_latest_url_and_seek(&lines),
        Err(ScanError { line_number: 3, error: LineError::BadTimestamp })
    );
    assert_eq!(
        VrcLogReader::new(None).find_last_url(&lines),
        Err(ScanError { line_number: 3, error: LineError::BadTimestamp })
    );
    assert_eq!(
        read_initial_state_from_log(&lines, &None),
        Err(ScanError { line_number: 3, error: LineError::BadTimestamp })
    );
}

#[test]
fn unreadable_seek_fails_the_scan_only_behind_the_last_url() {
    let mut lines = interleaved();
    lines[3] = seek_line("10:00:10", "A", "1.2.3");
    assert!(VrcLogReader::new(None).get_latest_url_and_seek(&lines).is_ok());
    lines[7] = seek_line("10:05:20", "A", "1.2.3");
    assert_eq!(
        VrcLogReader::new(None).get_latest_url_and_seek(&lines),
        Err(ScanError { line_number: 8, error: LineError::BadSeekOffset })
    );
    lines[6] = seek_line("10:65:20", "A", "1.5");
    assert_eq!(
        VrcLogReader::new(None).get_latest_url_and_seek(&lines),
        Err(ScanError { line_number: 7, error: LineError::BadTimestamp })
    );
}

#[test]
fn initial_state_follows_the_finding() {
    let found_url = url(at(10, 0, 0), "https://x/v.mp4", 4);
    let found_seek = FoundSeek { timestamp: at(10, 0, 3), seek_offset: 42_000_000 };
    assert_eq!(
        initial_state_from(UrlAndSeekResult::Nothing(9)),
        InitialStateResult { initial_state: None, lines_read_initially: 9 }
    );
    assert_eq!(
        initial_state_from(UrlAndSeekResult::Url(found_url.clone(), 9)),
        InitialStateResult {
            initial_state: Some(InitialState {
                timestamp: at(10, 0, 0),
                additional_offset: 0,
                url: "https://x/v.mp4".to_string()
            }),
            lines_read_initially: 9
        }
    );
    assert_eq!(
        initial_state_from(UrlAndSeekResult::UrlAndSeek(found_url, found_seek, 9)),
        InitialStateResult {
            initial_state: Some(InitialState {
                timestamp: at(10, 0, 3),
                additional_offset: 42_000_000,
                url: "https://x/v.mp4".to_string()
            }),
            lines_read_initially: 9
        }
    );
}

#[test]
fn watcher_gives_the_facts_of_new_lines_in_order() {
    let lines = interleaved();
    let mut watcher = VrcLogWatcher::new(0, None);
    let found = watcher.watch_lines(&lines);
    assert_eq!(found.failure, None);
    assert_eq!(
        found.events,
        vec![
            VrcLogWatcherEvent::FoundSeek(FoundSeek { timestamp: at(9, 59, 0), seek_offset: 7_500_000 }),
            VrcLogWatcherEvent::FoundUrl(url(at(10, 0, 0), "https://x/first.mp4", 3)),
            VrcLogWatcherEvent::FoundSeek(FoundSeek { timestamp: at(10, 0, 10), seek_offset: 11_250_000 }),
            VrcLogWatcherEvent::FoundUrl(url(at(10, 5, 0), "https://x/second.mp4", 6)),
            VrcLogWatcherEvent::FoundSeek(FoundSeek { timestamp: at(10, 5, 20), seek_offset: 20_500_000 }),
            VrcLogWatcherEvent::FoundSeek(FoundSeek { timestamp: at(10, 5, 40), seek_offset: 42_000_000 }),
        ]
    );
    assert_eq!(watcher.lines_read(), 10);
}

#[test]
fn watcher_resumes_exactly_behind_the_scan() {
    let lines = interleaved();
    for cut in 0..=lines.len() {
        let scanned = lines[..cut].to_vec();
        let rest = lines[cut..].to_vec();
        let begin = read_initial_state_from_log(&scanned, &None).unwrap();
        assert_eq!(begin.lines_read_initially, cut as u64);
        let mut resumed = VrcLogWatcher::new(begin.lines_read_initially, None);
        let tail = resumed.watch_lines(&rest);
        assert_eq!(resumed.lines_read(), lines.len() as u64);

        let mut from_the_start = VrcLogWatcher::new(0, None);
        let head = from_the_start.watch_lines(&scanned);
        assert_eq!(from_the_start.lines_read(), cut as u64);
        let mut one_pass = VrcLogWatcher::new(0, None);
        let all = one_pass.watch_lines(&lines);
        let mut joined = head.events.clone();
        joined.extend(tail.events.clone());
        assert_eq!(joined, all.events, "cut at {cut}");
    }
}

#[test]
fn notification_without_new_lines_changes_nothing() {
    let mut watcher = VrcLogWatcher::new(6, IdentityFilter::new("A"));
    let nothing: Vec<String> = vec![];
    for _ in 0..3 {
        let found = watcher.watch_lines(&nothing);
        assert!(found.events.is_empty());
        assert_eq!(found.failure, None);
        assert_eq!(watcher.lines_read(), 6);
    }
    let found = watcher.watch_lines(&vec![url_line("10:00:00", "A", "https://x/v.mp4")]);
    assert_eq!(found.events, vec![VrcLogWatcherEvent::FoundUrl(url(at(10, 0, 0), "https://x/v.mp4", 7))]);
    assert_eq!(watcher.lines_read(), 7);
}

#[test]
fn watcher_numbers_lines_as_the_file_does() {
    let mut watcher = VrcLogWatcher::new(100, None);
    let found = watcher.watch_lines(&vec![
        noise(1),
        url_line("10:00:00", "A", "https://x/a.mp4"),
        url_line("10:00:01", "A", "https://x/b.mp4"),
    ]);
    assert_eq!(
        found.events,
        vec![
            VrcLogWatcherEvent::FoundUrl(url(at(10, 0, 0), "https://x/a.mp4", 102)),
            VrcLogWatcherEvent::FoundUrl(url(at(10, 0, 1), "https://x/b.mp4", 103)),
        ]
    );
    assert_eq!(watcher.lines_read(), 103);
}

#[test]
fn watcher_stops_at_a_line_it_cannot_read() {
    let mut watcher = VrcLogWatcher::new(10, None);
    let found = watcher.watch_lines(&vec![
        url_line("10:00:00", "A", "https://x/a.mp4"),
        seek_line("10:00:05", "A", "1.2.3"),
        url_line("10:00:09", "A", "https://x/b.mp4"),
    ]);
    assert_eq!(found.events, vec![VrcLogWatcherEvent::FoundUrl(url(at(10, 0, 0), "https://x/a.mp4", 11))]);
    assert_eq!(found.failure, Some(ScanError { line_number: 12, error: LineError::BadSeekOffset }));
    assert_eq!(watcher.lines_read(), 11);
}

#[test]
fn watcher_honours_the_filter() {
    let mut watcher = VrcLogWatcher::new(0, IdentityFilter::new("^B$"));
    let found = watcher.watch_lines(&vec![
        url_line("10:00:00", "A", "https://x/a.mp4"),
        seek_line("10:00:05", "B", "1.5"),
        seek_line("10:00:06", "A", "1.2.3"),
    ]);
    assert_eq!(
        found.events,
        vec![VrcLogWatcherEvent::FoundSeek(FoundSeek { timestamp: at(10, 0, 5), seek_offset: 1_500_000 })]
    );
    assert_eq!(found.failure, None);
    assert_eq!(watcher.lines_read(), 3);
}

#[test]
fn every_line_counts_as_read() {
    let lines = interleaved();
    for end in 0..=lines.len() {
        let part = lines[..end].to_vec();
        let mut reader = VrcLogReader::new(None);
        assert_eq!(reader.lines_read_initially(), None);
        reader.find_last_url(&part).unwrap();
        assert_eq!(reader.lines_read_initially(), Some(end as u64));
        let mut reader = VrcLogReader::new(IdentityFilter::new("^nobody$"));
        assert_eq!(reader.get_latest_url_and_seek(&part), Ok(UrlAndSeekResult::Nothing(end as u64)));
        assert_eq!(reader.lines_read_initially(), Some(end as u64));
    }
}

#[test]
fn a_scan_that_fails_counts_nothing() {
    let mut lines = interleaved();
    lines[2] = "2024.01.01 10:61:00 Log - [AT INFO TVManager (A)] [B] (C) Now Playing: https://x/first.mp4".to_string();
    let mut reader = VrcLogReader::new(None);
    assert!(reader.find_last_url(&lines).is_err());
    assert_eq!(reader.lines_read_initially(), None);
}

#[test]
fn however_the_growth_is_cut_every_line_is_read_once() {
    let lines = interleaved();
    let mut one_pass = VrcLogWatcher::new(40, None);
    let all = one_pass.watch_lines(&lines);
    for first in 0..=lines.len() {
        for second in first..=lines.len() {
            let runs = [
                lines[..first].to_vec(),
                vec![],
                lines[first..second].to_vec(),
                vec![],
                vec![],
                lines[second..].to_vec(),
            ];
            let mut watcher = VrcLogWatcher::new(40, None);
            let mut events = Vec::new();
            let mut read = 40;
            for run in &runs {
                let found = watcher.watch_lines(run);
                assert_eq!(found.failure, None);
                read += run.len() as u64;
                assert_eq!(watcher.lines_read(), read);
                events.extend(found.events);
            }
            assert_eq!(events, all.events, "cut at {first} and {second}");
            assert_eq!(watcher.lines_read(), one_pass.lines_read());
        }
    }
}
