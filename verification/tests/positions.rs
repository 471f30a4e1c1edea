use mpv_handler::ticks::final_position;
use mpv_handler::ticks::parse_time_pos;
use mpv_handler::ticks::parse_timestamp;
use mpv_handler::ticks::seconds_to_ticks;
use mpv_handler::ticks::ticks_to_seconds;

#[test]
fn whole_seconds_round_trip_exactly() {
    let ticks = seconds_to_ticks(12345);
    assert_eq!(ticks, 123_450_000_000);
    assert_eq!(ticks_to_seconds(ticks), 12345);
    assert_eq!(ticks_to_seconds(seconds_to_ticks(0)), 0);
    assert_eq!(ticks_to_seconds(seconds_to_ticks(1)), 1);
}

#[test]
fn start_seconds_truncate() {
    assert_eq!(ticks_to_seconds(652_500_000), 65);
    assert_eq!(ticks_to_seconds(9_999_999), 0);
}

#[test]
fn timestamps_parse_exactly() {
    assert_eq!(parse_timestamp(b"00:01:05.250"), Some(652_500_000));
    assert_eq!(parse_timestamp(b"00:01:07.000"), Some(670_000_000));
    assert_eq!(parse_timestamp(b"01:00:00.001"), Some(36_000_010_000));
    assert_eq!(parse_timestamp(b"00:00:00.000"), Some(0));
}

#[test]
fn malformed_timestamps_are_rejected() {
    assert_eq!(parse_timestamp(b""), None);
    assert_eq!(parse_timestamp(b"0:01:05.250"), None);
    assert_eq!(parse_timestamp(b"00-01-05.250"), None);
    assert_eq!(parse_timestamp(b"00:01:05.25"), None);
    assert_eq!(parse_timestamp(b"00:01:05,250"), None);
    assert_eq!(parse_timestamp(b"aa:bb:cc.ddd"), None);
}

#[test]
fn last_timestamp_wins_not_max_nor_sum() {
    let lines = vec![b"00:01:05.250".to_vec(), b"00:01:07.000".to_vec()];
    assert_eq!(final_position(&lines, 5), 67 * 10_000_000);
    // reversed order: the later, smaller value wins
    let lines = vec![b"00:01:07.000".to_vec(), b"00:01:05.250".to_vec()];
    assert_eq!(final_position(&lines, 5), 652_500_000);
}

#[test]
fn garbage_lines_are_skipped_and_fallback_applies() {
    let lines = vec![
        b"playing...".to_vec(),
        b"00:00:02.000".to_vec(),
        b"exiting".to_vec(),
    ];
    assert_eq!(final_position(&lines, 5), 20_000_000);
    let lines = vec![b"noise".to_vec()];
    assert_eq!(final_position(&lines, 5), 5);
    let lines: Vec<Vec<u8>> = vec![];
    assert_eq!(final_position(&lines, 5), 5);
}

#[test]
fn time_pos_values_parse_exactly() {
    assert_eq!(parse_time_pos(b"65.25"), Some(652_500_000));
    assert_eq!(parse_time_pos(b"65"), Some(650_000_000));
    assert_eq!(parse_time_pos(b"0.0000001"), Some(1));
    assert_eq!(parse_time_pos(b"0.00000019"), Some(1));
    assert_eq!(parse_time_pos(b"123.456789"), Some(1_234_567_890));
}

#[test]
fn malformed_time_pos_is_rejected() {
    assert_eq!(parse_time_pos(b""), None);
    assert_eq!(parse_time_pos(b"."), None);
    assert_eq!(parse_time_pos(b"65."), None);
    assert_eq!(parse_time_pos(b".5"), None);
    assert_eq!(parse_time_pos(b"null"), None);
    assert_eq!(parse_time_pos(b"6 5"), None);
    assert_eq!(parse_time_pos(b"99999999999999999999999999"), None);
}
